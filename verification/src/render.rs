//! Rendering primitives: an RGB canvas, most-common-color downsampling,
//! scaled and supersampled blitting, and the whole-map shadow, ambient
//! occlusion and bloom passes.
//!
//! The color resolution rules live in the `color` module and the shadow /
//! supersampling / ambient-occlusion / bloom math lives in the `light`
//! module; this module turns them into pixels.

use vstd::prelude::*;

use crate::chunk::{top_sized, ChunkTop, CHUNK_SIZE, COLUMNS, VOID_H};
use crate::color::{
    apply_ao, column_light, darken_for, display_color, display_color_of, lemma_shading_never_brightens,
    light_of, night_for, opt_chars, scaled, shade_for, shaded_for, NO_BLOCK,
};
use crate::light::{
    ambient_occlusion, bloom, cell, lemma_cell_in_grid, lemma_cell_order, BLOOM_RADIUS_BLOCKS,
    NIGHT_BLOOM_RADIUS_BLOCKS,
};

verus! {

/// An RGB image, stored row by row (index = `y * width + x`).
pub struct Canvas {
    pub width: u32,
    pub height: u32,
    pub pixels: Vec<[u8; 3]>,
}

impl Canvas {
    /// The pixel buffer holds exactly `width * height` pixels.
    pub open spec fn wf(&self) -> bool {
        self.pixels@.len() == self.width * self.height
    }

    /// The pixel at `(x, y)`.
    pub open spec fn at(&self, x: int, y: int) -> [u8; 3] {
        self.pixels@[cell(self.width as int, x, y)]
    }

    /// A black canvas of the given size.
    pub fn new(width: u32, height: u32) -> (c: Canvas)
        requires
            width * height <= usize::MAX,
        ensures
            c.wf(),
            c.width == width,
            c.height == height,
            forall|i: int| 0 <= i < c.pixels@.len() ==> #[trigger] c.pixels@[i] == NO_BLOCK,
    {
        let n = (width as usize) * (height as usize);
        let pixels: Vec<[u8; 3]> = vec![NO_BLOCK; n];
        Canvas { width, height, pixels }
    }

    /// Set the pixel at `(x, y)`.
    pub fn put_pixel(&mut self, x: u32, y: u32, rgb: [u8; 3])
        requires
            old(self).wf(),
            x < old(self).width,
            y < old(self).height,
        ensures
            final(self).width == old(self).width,
            final(self).height == old(self).height,
            final(self).pixels@ == old(self).pixels@.update(cell(old(self).width as int, x as int, y as int), rgb),
    {
        proof {
            lemma_cell_in_grid(self.width as int, self.height as int, x as int, y as int);
        }
        let n = self.pixels.len();
        assert((y as int) * (self.width as int) + x < n);
        let i = (y as usize) * (self.width as usize) + (x as usize);
        self.pixels.set(i, rgb);
    }

    /// The pixel at `(x, y)`.
    pub fn get_pixel(&self, x: u32, y: u32) -> (rgb: [u8; 3])
        requires
            self.wf(),
            x < self.width,
            y < self.height,
        ensures
            rgb == self.at(x as int, y as int),
    {
        proof {
            lemma_cell_in_grid(self.width as int, self.height as int, x as int, y as int);
        }
        let n = self.pixels.len();
        assert((y as int) * (self.width as int) + x < n);
        self.pixels[(y as usize) * (self.width as usize) + (x as usize)]
    }
}

/// Number of occurrences of `c` among the first `k` items.
pub open spec fn occ(items: Seq<[u8; 3]>, c: [u8; 3], k: int) -> int
    decreases k,
{
    if k <= 0 {
        0
    } else {
        occ(items, c, k - 1) + if items[k - 1] == c {
            1int
        } else {
            0int
        }
    }
}

/// `items[k]` is the most common non-void color, and no color reached that
/// count earlier in scan order.
pub open spec fn is_mode_index(items: Seq<[u8; 3]>, k: int) -> bool {
    &&& 0 <= k < items.len()
    &&& items[k] != NO_BLOCK
    &&& forall|j: int|
        0 <= j < items.len() && items[j] != NO_BLOCK ==> occ(items, items[j], items.len() as int) <= occ(
            items,
            items[k],
            k + 1,
        )
    &&& forall|j: int|
        0 <= j < k && items[j] != NO_BLOCK ==> occ(items, items[j], j + 1) < occ(items, items[k], k + 1)
}

/// The most common non-void color of `items`. Ties resolve to whichever color
/// reaches the leading count first in scan order; an all-void list gives
/// [`NO_BLOCK`].
pub open spec fn mode_color(items: Seq<[u8; 3]>) -> [u8; 3] {
    if exists|k: int| is_mode_index(items, k) {
        items[choose|k: int| is_mode_index(items, k)]
    } else {
        NO_BLOCK
    }
}

proof fn lemma_occ_monotone(items: Seq<[u8; 3]>, c: [u8; 3], a: int, b: int)
    requires
        0 <= a <= b,
    ensures
        occ(items, c, a) <= occ(items, c, b),
    decreases b - a,
{
    if b > a {
        lemma_occ_monotone(items, c, a, b - 1);
    }
}

proof fn lemma_occ_absent(items: Seq<[u8; 3]>, c: [u8; 3], k: int)
    requires
        forall|j: int| 0 <= j < k ==> items[j] != c,
    ensures
        occ(items, c, k) == 0,
    decreases k,
{
    if k > 0 {
        lemma_occ_absent(items, c, k - 1);
    }
}

proof fn lemma_mode_index_unique(items: Seq<[u8; 3]>, k1: int, k2: int)
    requires
        is_mode_index(items, k1),
        is_mode_index(items, k2),
    ensures
        k1 == k2,
{
    if k1 < k2 {
        lemma_occ_monotone(items, items[k2], k2 + 1, items.len() as int);
        assert(occ(items, items[k2], items.len() as int) <= occ(items, items[k1], k1 + 1));
        assert(occ(items, items[k1], k1 + 1) < occ(items, items[k2], k2 + 1));
    } else if k2 < k1 {
        lemma_occ_monotone(items, items[k1], k1 + 1, items.len() as int);
        assert(occ(items, items[k1], items.len() as int) <= occ(items, items[k2], k2 + 1));
        assert(occ(items, items[k2], k2 + 1) < occ(items, items[k1], k1 + 1));
    }
}

/// The mode color is the most common non-void color of the list: no
/// non-void color occurs more often, and it occurs in the list; it is
/// [`NO_BLOCK`] exactly when every item is void.
pub proof fn lemma_mode_is_most_common(items: Seq<[u8; 3]>)
    ensures
        mode_color(items) == NO_BLOCK <==> forall|j: int| 0 <= j < items.len() ==> items[j] == NO_BLOCK,
        mode_color(items) != NO_BLOCK ==> exists|k: int| 0 <= k < items.len() && items[k] == mode_color(items),
        forall|c: [u8; 3]|
            c != NO_BLOCK ==> #[trigger] occ(items, c, items.len() as int) <= occ(
                items,
                mode_color(items),
                items.len() as int,
            ),
{
    let n = items.len() as int;
    if exists|k: int| is_mode_index(items, k) {
        let k = choose|k: int| is_mode_index(items, k);
        assert(mode_color(items) == items[k]);
        lemma_occ_monotone(items, items[k], k + 1, n);
        assert forall|c: [u8; 3]| c != NO_BLOCK implies #[trigger] occ(items, c, n) <= occ(
            items,
            mode_color(items),
            n,
        ) by {
            if exists|j: int| 0 <= j < n && items[j] == c {
                let j = choose|j: int| 0 <= j < n && items[j] == c;
                assert(occ(items, items[j], n) <= occ(items, items[k], k + 1));
            } else {
                lemma_occ_absent(items, c, n);
                lemma_occ_bounded(items, items[k], n);
            }
        }
    } else {
        assert forall|j: int| 0 <= j < n implies items[j] == NO_BLOCK by {
            if items[j] != NO_BLOCK {
                // The first index at which some color reaches the top count
                // would be a mode index.
                lemma_mode_exists(items, j);
            }
        }
        assert forall|c: [u8; 3]| c != NO_BLOCK implies #[trigger] occ(items, c, n) <= occ(
            items,
            mode_color(items),
            n,
        ) by {
            lemma_occ_absent(items, c, n);
            lemma_occ_bounded(items, mode_color(items), n);
        }
    }
}

/// Scanning a list that holds a non-void item finds a mode index.
proof fn lemma_mode_exists(items: Seq<[u8; 3]>, j0: int)
    requires
        0 <= j0 < items.len(),
        items[j0] != NO_BLOCK,
    ensures
        exists|k: int| is_mode_index(items, k),
{
    let n = items.len() as int;
    let (bi, bc) = scan_mode(items, n);
    lemma_scan_mode(items, n);
    assert(bc > 0) by {
        lemma_occ_bounded(items, items[j0], j0);
        assert(occ(items, items[j0], j0 + 1) >= 1);
        lemma_occ_monotone(items, items[j0], j0 + 1, n);
    }
    assert(is_mode_index(items, bi));
}

/// The scan of the first `k` items: the index and count of the running
/// leader.
spec fn scan_mode(items: Seq<[u8; 3]>, k: int) -> (int, int)
    decreases k,
{
    if k <= 0 {
        (0, 0)
    } else {
        let (bi, bc) = scan_mode(items, k - 1);
        let c = items[k - 1];
        if c != NO_BLOCK && occ(items, c, k) > bc {
            (k - 1, occ(items, c, k))
        } else {
            (bi, bc)
        }
    }
}

/// What the running leader of a scan satisfies.
spec fn leader_ok(items: Seq<[u8; 3]>, k: int, bi: int, bc: int) -> bool {
    &&& (bc == 0 ==> forall|j: int| 0 <= j < k ==> items[j] == NO_BLOCK)
    &&& (bc > 0 ==> {
        &&& 0 <= bi < k
        &&& items[bi] != NO_BLOCK
        &&& occ(items, items[bi], bi + 1) == bc
        &&& forall|j: int| 0 <= j < k && items[j] != NO_BLOCK ==> occ(items, items[j], k) <= bc
        &&& forall|j: int| 0 <= j < bi && items[j] != NO_BLOCK ==> occ(items, items[j], j + 1) < bc
    })
    &&& bc >= 0
}

/// Taking one more item keeps the leader invariant.
proof fn lemma_leader_step(items: Seq<[u8; 3]>, k: int, bi: int, bc: int)
    requires
        0 <= k < items.len(),
        leader_ok(items, k, bi, bc),
    ensures
        ({
            let c = items[k];
            let nc = occ(items, c, k + 1);
            if c != NO_BLOCK && nc > bc {
                leader_ok(items, k + 1, k, nc)
            } else {
                leader_ok(items, k + 1, bi, bc)
            }
        }),
{
    let c = items[k];
    let nc = occ(items, c, k + 1);
    assert forall|j: int| 0 <= j < k + 1 && items[j] != NO_BLOCK && items[j] != c implies occ(
        items,
        items[j],
        k + 1,
    ) == occ(items, items[j], k) by {}
    if c != NO_BLOCK && nc > bc {
        assert forall|j: int| 0 <= j < k && items[j] != NO_BLOCK implies occ(items, items[j], j + 1) < nc by {
            lemma_occ_monotone(items, items[j], j + 1, k);
            if items[j] == c {
                assert(occ(items, c, k) < nc);
            }
        }
    } else if c != NO_BLOCK {
        assert(bc > 0 || nc > 0) by {
            assert(nc == occ(items, c, k) + 1);
            assert(occ(items, c, k) >= 0) by {
                lemma_occ_monotone(items, c, 0, k);
            }
        }
    }
}

proof fn lemma_scan_mode(items: Seq<[u8; 3]>, k: int)
    requires
        0 <= k <= items.len(),
    ensures
        leader_ok(items, k, scan_mode(items, k).0, scan_mode(items, k).1),
    decreases k,
{
    if k > 0 {
        lemma_scan_mode(items, k - 1);
        let (bi, bc) = scan_mode(items, k - 1);
        lemma_leader_step(items, k - 1, bi, bc);
    }
}

/// Index of the first entry of `keys` equal to `c`, if any.
fn find_color(keys: &Vec<[u8; 3]>, c: [u8; 3]) -> (r: Option<usize>)
    ensures
        match r {
            Some(e) => e < keys@.len() && keys@[e as int] == c,
            None => forall|e: int| 0 <= e < keys@.len() ==> keys@[e] != c,
        },
{
    let mut e: usize = 0;
    while e < keys.len()
        invariant
            e <= keys@.len(),
            forall|f: int| 0 <= f < e ==> keys@[f] != c,
        decreases keys@.len() - e,
    {
        let k = keys[e];
        if k[0] == c[0] && k[1] == c[1] && k[2] == c[2] {
            assert(k == c);
            return Some(e);
        }
        e = e + 1;
    }
    None
}

/// The most common non-void color of a list of colors (see [`mode_color`]).
pub fn mode_of(items: &Vec<[u8; 3]>) -> (out: [u8; 3])
    ensures
        out == mode_color(items@),
{
    let ghost s = items@;
    let mut keys: Vec<[u8; 3]> = Vec::new();
    let mut counts: Vec<usize> = Vec::new();
    let mut best: [u8; 3] = NO_BLOCK;
    let mut best_count: usize = 0;
    let ghost mut bi: int = 0;
    let mut k: usize = 0;
    while k < items.len()
        invariant
            s == items@,
            k <= s.len(),
            keys@.len() == counts@.len(),
            forall|e: int| 0 <= e < keys@.len() ==> #[trigger] keys@[e] != NO_BLOCK,
            forall|e: int| 0 <= e < keys@.len() ==> #[trigger] counts@[e] == occ(s, keys@[e], k as int),
            forall|e1: int, e2: int|
                0 <= e1 < keys@.len() && 0 <= e2 < keys@.len() && e1 != e2 ==> #[trigger] keys@[e1]
                    != #[trigger] keys@[e2],
            forall|j: int|
                0 <= j < k && s[j] != NO_BLOCK ==> exists|e: int| 0 <= e < keys@.len() && #[trigger] keys@[e] == s[j],
            leader_ok(s, k as int, bi, best_count as int),
            best_count > 0 ==> best == s[bi],
            best_count == 0 ==> best == NO_BLOCK,
            best_count <= k,
        decreases s.len() - k,
    {
        let c = items[k];
        proof {
            lemma_leader_step(s, k as int, bi, best_count as int);
        }
        let ghost old_keys = keys@;
        let ghost old_counts = counts@;
        if c[0] != 0 || c[1] != 0 || c[2] != 0 {
            assert(c != NO_BLOCK);
            let nc: usize;
            match find_color(&keys, c) {
                Some(e) => {
                    let v = counts[e];
                    proof {
                        lemma_occ_bounded(s, c, k as int);
                    }
                    nc = v + 1;
                    counts.set(e, nc);
                    assert forall|f: int| 0 <= f < keys@.len() implies #[trigger] counts@[f] == occ(
                        s,
                        keys@[f],
                        k + 1,
                    ) by {
                        if f != e {
                            assert(keys@[f] != keys@[e as int]);
                            assert(old_counts[f] == occ(s, old_keys[f], k as int));
                        }
                    }
                    assert forall|j: int| 0 <= j < k + 1 && s[j] != NO_BLOCK implies exists|ee: int|
                        0 <= ee < keys@.len() && #[trigger] keys@[ee] == s[j] by {
                        if j < k {
                            let ee = choose|ee: int| 0 <= ee < old_keys.len() && #[trigger] old_keys[ee] == s[j];
                            assert(keys@[ee] == s[j]);
                        } else {
                            assert(keys@[e as int] == s[j]);
                        }
                    }
                },
                None => {
                    proof {
                        assert forall|j: int| 0 <= j < k implies s[j] != c by {
                            if s[j] == c {
                                let ee = choose|ee: int| 0 <= ee < old_keys.len() && #[trigger] old_keys[ee] == s[j];
                                assert(old_keys[ee] != c);
                            }
                        }
                        lemma_occ_absent(s, c, k as int);
                    }
                    nc = 1;
                    keys.push(c);
                    counts.push(1);
                    assert forall|f: int| 0 <= f < keys@.len() implies #[trigger] counts@[f] == occ(
                        s,
                        keys@[f],
                        k + 1,
                    ) by {
                        if f < old_keys.len() {
                            assert(old_counts[f] == occ(s, old_keys[f], k as int));
                            assert(old_keys[f] != c);
                        }
                    }
                    assert forall|e1: int, e2: int|
                        0 <= e1 < keys@.len() && 0 <= e2 < keys@.len() && e1 != e2 implies #[trigger] keys@[e1]
                        != #[trigger] keys@[e2] by {
                        if e1 < old_keys.len() && e2 < old_keys.len() {
                            assert(old_keys[e1] != old_keys[e2]);
                        }
                    }
                    assert forall|j: int| 0 <= j < k + 1 && s[j] != NO_BLOCK implies exists|ee: int|
                        0 <= ee < keys@.len() && #[trigger] keys@[ee] == s[j] by {
                        if j < k {
                            let ee = choose|ee: int| 0 <= ee < old_keys.len() && #[trigger] old_keys[ee] == s[j];
                            assert(keys@[ee] == s[j]);
                        } else {
                            assert(keys@[old_keys.len() as int] == s[j]);
                        }
                    }
                },
            }
            assert(nc == occ(s, c, k + 1));
            if nc > best_count {
                best = c;
                best_count = nc;
                proof {
                    bi = k as int;
                }
            }
        } else {
            assert(c =~= NO_BLOCK);
            assert forall|f: int| 0 <= f < keys@.len() implies #[trigger] counts@[f] == occ(
                s,
                keys@[f],
                k + 1,
            ) by {
                assert(keys@[f] != NO_BLOCK);
            }
            assert forall|j: int| 0 <= j < k + 1 && s[j] != NO_BLOCK implies exists|ee: int|
                0 <= ee < keys@.len() && #[trigger] keys@[ee] == s[j] by {
                if j < k {
                    let ee = choose|ee: int| 0 <= ee < old_keys.len() && #[trigger] old_keys[ee] == s[j];
                    assert(keys@[ee] == s[j]);
                }
            }
        }
        k = k + 1;
    }
    proof {
        if best_count > 0 {
            assert(is_mode_index(s, bi));
            assert(exists|kk: int| is_mode_index(s, kk));
            let kk = choose|kk: int| is_mode_index(s, kk);
            lemma_mode_index_unique(s, kk, bi);
            assert(mode_color(s) == s[bi]);
            assert(best == s[bi]);
        } else {
            assert forall|kk: int| !is_mode_index(s, kk) by {}
            assert(mode_color(s) == NO_BLOCK);
            assert(best == NO_BLOCK);
        }
    }
    best
}

proof fn lemma_occ_bounded(items: Seq<[u8; 3]>, c: [u8; 3], k: int)
    requires
        0 <= k,
    ensures
        0 <= occ(items, c, k) <= k,
    decreases k,
{
    if k > 0 {
        lemma_occ_bounded(items, c, k - 1);
    }
}

/// The colors of row `z` of a `w`-wide grid, columns `x0 .. x1`.
pub open spec fn row_items(colors: Seq<[u8; 3]>, w: int, z: int, x0: int, x1: int) -> Seq<[u8; 3]> {
    Seq::new((x1 - x0) as nat, |i: int| colors[cell(w, x0 + i, z)])
}

/// The colors of the rectangle `[x0, x1) x [z0, z1)` of a `w`-wide grid, in
/// row-major scan order.
pub open spec fn rect_items(colors: Seq<[u8; 3]>, w: int, x0: int, x1: int, z0: int, z1: int) -> Seq<[u8; 3]>
    decreases z1 - z0,
{
    if z1 <= z0 {
        Seq::empty()
    } else {
        rect_items(colors, w, x0, x1, z0, z1 - 1) + row_items(colors, w, z1 - 1, x0, x1)
    }
}

/// The display color of every column of a region.
pub open spec fn region_colors(blocks: Seq<Option<String>>, under: Seq<Option<String>>, transparency: bool) -> Seq<
    [u8; 3],
> {
    Seq::new(
        blocks.len(),
        |i: int| display_color_of(opt_chars(blocks[i]), opt_chars(under[i]), transparency),
    )
}

/// Color of the most common block within the block rectangle
/// `[x0, x1) x [z0, z1)` of a `region_w`-wide region.
///
/// Each column is resolved to its display color (see [`display_color`],
/// which applies water transparency when enabled), and the most common color
/// wins. Ties resolve to whichever color reaches the leading count first in
/// row-major scan order, so the result is deterministic. Void columns are
/// ignored; an all-void area returns [`NO_BLOCK`].
pub fn most_common_color(
    blocks: &[Option<String>],
    under: &[Option<String>],
    region_w: usize,
    x0: usize,
    x1: usize,
    z0: usize,
    z1: usize,
    transparency: bool,
) -> (out: [u8; 3])
    requires
        blocks@.len() == under@.len(),
        x0 <= x1 <= region_w,
        z0 <= z1,
        z1 * region_w <= blocks@.len(),
    ensures
        out == mode_color(
            rect_items(
                region_colors(blocks@, under@, transparency),
                region_w as int,
                x0 as int,
                x1 as int,
                z0 as int,
                z1 as int,
            ),
        ),
{
    let ghost colors = region_colors(blocks@, under@, transparency);
    let ghost w = region_w as int;
    let mut items: Vec<[u8; 3]> = Vec::new();
    let mut z = z0;
    while z < z1
        invariant
            blocks@.len() == under@.len(),
            colors == region_colors(blocks@, under@, transparency),
            w == region_w,
            x0 <= x1 <= region_w,
            z0 <= z <= z1,
            z1 * region_w <= blocks@.len(),
            items@ == rect_items(colors, w, x0 as int, x1 as int, z0 as int, z as int),
        decreases z1 - z,
    {
        let mut x = x0;
        while x < x1
            invariant
                blocks@.len() == under@.len(),
                colors == region_colors(blocks@, under@, transparency),
                w == region_w,
                x0 <= x <= x1 <= region_w,
                z0 <= z < z1,
                z1 * region_w <= blocks@.len(),
                items@ == rect_items(colors, w, x0 as int, x1 as int, z0 as int, z as int) + row_items(
                    colors,
                    w,
                    z as int,
                    x0 as int,
                    x as int,
                ),
            decreases x1 - x,
        {
            assert((z as int) * (region_w as int) + x < blocks@.len()) by (nonlinear_arith)
                requires
                    z < z1,
                    x < region_w,
                    z1 * region_w <= blocks@.len(),
            {
                assert((z + 1) * region_w <= z1 * region_w);
            };
            let n = blocks.len();
            assert(z * region_w + x < n);
            let i = z * region_w + x;
            let c = display_color(&blocks[i], &under[i], transparency);
            let ghost before = items@;
            items.push(c);
            assert(row_items(colors, w, z as int, x0 as int, x + 1) =~= row_items(
                colors,
                w,
                z as int,
                x0 as int,
                x as int,
            ).push(c));
            assert(items@ =~= rect_items(colors, w, x0 as int, x1 as int, z0 as int, z as int) + row_items(
                colors,
                w,
                z as int,
                x0 as int,
                x + 1,
            ));
            x = x + 1;
        }
        z = z + 1;
    }
    mode_of(&items)
}

/// Display color of the most common (non-void) block in the block rectangle
/// `[x0, x1) x [z0, z1)` of a grid of display colors, with the same
/// tie-breaking as [`most_common_color`].
///
/// [`NO_BLOCK`] (void) entries are ignored; an all-void area returns
/// [`NO_BLOCK`].
pub fn most_common_shaded_color(
    colors: &[[u8; 3]],
    region_w: usize,
    x0: usize,
    x1: usize,
    z0: usize,
    z1: usize,
) -> (out: [u8; 3])
    requires
        x0 <= x1 <= region_w,
        z0 <= z1,
        z1 * region_w <= colors@.len(),
    ensures
        out == mode_color(rect_items(colors@, region_w as int, x0 as int, x1 as int, z0 as int, z1 as int)),
{
    let ghost w = region_w as int;
    let mut items: Vec<[u8; 3]> = Vec::new();
    let mut z = z0;
    while z < z1
        invariant
            w == region_w,
            x0 <= x1 <= region_w,
            z0 <= z <= z1,
            z1 * region_w <= colors@.len(),
            items@ == rect_items(colors@, w, x0 as int, x1 as int, z0 as int, z as int),
        decreases z1 - z,
    {
        let mut x = x0;
        while x < x1
            invariant
                w == region_w,
                x0 <= x <= x1 <= region_w,
                z0 <= z < z1,
                z1 * region_w <= colors@.len(),
                items@ == rect_items(colors@, w, x0 as int, x1 as int, z0 as int, z as int) + row_items(
                    colors@,
                    w,
                    z as int,
                    x0 as int,
                    x as int,
                ),
            decreases x1 - x,
        {
            assert((z as int) * (region_w as int) + x < colors@.len()) by (nonlinear_arith)
                requires
                    z < z1,
                    x < region_w,
                    z1 * region_w <= colors@.len(),
            {
                assert((z + 1) * region_w <= z1 * region_w);
            };
            let n = colors.len();
            assert(z * region_w + x < n);
            let c = colors[z * region_w + x];
            items.push(c);
            assert(row_items(colors@, w, z as int, x0 as int, x + 1) =~= row_items(
                colors@,
                w,
                z as int,
                x0 as int,
                x as int,
            ).push(c));
            assert(items@ =~= rect_items(colors@, w, x0 as int, x1 as int, z0 as int, z as int) + row_items(
                colors@,
                w,
                z as int,
                x0 as int,
                x + 1,
            ));
            x = x + 1;
        }
        z = z + 1;
    }
    mode_of(&items)
}

/// `new` is `old` with the `cw x ch` rectangle at `(ox, oz)` of a `w x h`
/// canvas painted by `f` (given rectangle-local coordinates), and every other
/// pixel left as it was.
pub open spec fn painted<T>(
    old: Seq<T>,
    new: Seq<T>,
    w: int,
    h: int,
    ox: int,
    oz: int,
    cw: int,
    ch: int,
    f: spec_fn(int, int) -> T,
) -> bool {
    &&& new.len() == old.len()
    &&& forall|x: int, y: int|
        0 <= x < w && 0 <= y < h ==> #[trigger] new[cell(w, x, y)] == if ox <= x < ox + cw && oz <= y < oz
            + ch {
            f(x - ox, y - oz)
        } else {
            old[cell(w, x, y)]
        }
}

/// The rectangle has been painted, row by row, up to local cell `(rx, rz)`.
pub(crate) open spec fn painted_upto<T>(
    old: Seq<T>,
    new: Seq<T>,
    w: int,
    h: int,
    ox: int,
    oz: int,
    cw: int,
    ch: int,
    f: spec_fn(int, int) -> T,
    rz: int,
    rx: int,
) -> bool {
    &&& new.len() == old.len()
    &&& forall|x: int, y: int|
        0 <= x < w && 0 <= y < h ==> #[trigger] new[cell(w, x, y)] == if ox <= x < ox + cw && oz <= y < oz
            + ch && (y - oz < rz || (y - oz == rz && x - ox < rx)) {
            f(x - ox, y - oz)
        } else {
            old[cell(w, x, y)]
        }
}

/// Two different pixels of a grid have different indices.
proof fn lemma_cell_injective(w: int, x1: int, y1: int, x2: int, y2: int)
    requires
        0 <= x1 < w,
        0 <= x2 < w,
        0 <= y1,
        0 <= y2,
        x1 != x2 || y1 != y2,
    ensures
        cell(w, x1, y1) != cell(w, x2, y2),
{
    if y1 < y2 || (y1 == y2 && x1 < x2) {
        lemma_cell_order(w, x1, y1, x2, y2);
    } else {
        lemma_cell_order(w, x2, y2, x1, y1);
    }
}

/// Painting the next cell of a rectangle, in row order, extends what is
/// painted by one cell.
pub(crate) proof fn lemma_paint_step<T>(
    old: Seq<T>,
    cur: Seq<T>,
    new: Seq<T>,
    w: int,
    h: int,
    ox: int,
    oz: int,
    cw: int,
    ch: int,
    f: spec_fn(int, int) -> T,
    rz: int,
    rx: int,
)
    requires
        old.len() == w * h,
        0 <= ox,
        0 <= oz,
        ox + cw <= w,
        oz + ch <= h,
        0 <= rx < cw,
        0 <= rz < ch,
        painted_upto(old, cur, w, h, ox, oz, cw, ch, f, rz, rx),
        new == cur.update(cell(w, ox + rx, oz + rz), f(rx, rz)),
    ensures
        painted_upto(old, new, w, h, ox, oz, cw, ch, f, rz, rx + 1),
{
    lemma_cell_in_grid(w, h, ox + rx, oz + rz);
    assert forall|x: int, y: int| 0 <= x < w && 0 <= y < h implies #[trigger] new[cell(w, x, y)]
        == if ox <= x < ox + cw && oz <= y < oz + ch && (y - oz < rz || (y - oz == rz && x - ox < rx + 1)) {
        f(x - ox, y - oz)
    } else {
        old[cell(w, x, y)]
    } by {
        lemma_cell_in_grid(w, h, x, y);
        if x != ox + rx || y != oz + rz {
            lemma_cell_injective(w, x, y, ox + rx, oz + rz);
        }
    }
}

/// Once every row of the rectangle is painted, the whole rectangle is.
pub(crate) proof fn lemma_paint_done<T>(
    old: Seq<T>,
    new: Seq<T>,
    w: int,
    h: int,
    ox: int,
    oz: int,
    cw: int,
    ch: int,
    f: spec_fn(int, int) -> T,
)
    requires
        painted_upto(old, new, w, h, ox, oz, cw, ch, f, ch, 0),
    ensures
        painted(old, new, w, h, ox, oz, cw, ch, f),
{
}

/// Cells needed to cover `n` blocks with `s`-block cells, rounding up.
pub open spec fn cells_for(n: int, s: int) -> int {
    (n + s - 1) / s
}

/// Color of cell `(cx, cz)` of a `rw x rh` color grid downsampled by `s`: the
/// block's own color at `s = 1`, else the most common color of its `s x s`
/// block area (clipped at the grid's edge).
pub open spec fn scaled_cell(colors: Seq<[u8; 3]>, rw: int, rh: int, s: int, cx: int, cz: int) -> [u8; 3] {
    if s == 1 {
        colors[cell(rw, cx, cz)]
    } else {
        let x0 = cx * s;
        let z0 = cz * s;
        let x1 = if x0 + s < rw { x0 + s } else { rw };
        let z1 = if z0 + s < rh { z0 + s } else { rh };
        mode_color(rect_items(colors, rw, x0, x1, z0, z1))
    }
}

/// The painter of a downsampled region: each cell's color, night-darkened
/// when night mode is on.
pub open spec fn scaled_painter(colors: Seq<[u8; 3]>, rw: int, rh: int, s: int, night: bool) -> spec_fn(
    int,
    int,
) -> [u8; 3] {
    |cx: int, cz: int| night_for(scaled_cell(colors, rw, rh, s, cx, cz), night)
}

/// `max(scale, 1)`.
pub open spec fn at_least_one(scale: u32) -> int {
    if scale == 0 {
        1
    } else {
        scale as int
    }
}

/// Bounds on the cell `(cx, cz)` block area of a downsampled grid.
proof fn lemma_cell_area(n: int, s: int, c: int)
    requires
        s >= 1,
        0 <= c < cells_for(n, s),
        n >= 0,
    ensures
        0 <= c * s < n,
{
    assert(c * s >= 0) by (nonlinear_arith)
        requires
            c >= 0,
            s >= 1,
    ;
    if c * s >= n {
        assert((n + s - 1) / s <= c) by {
            assert(n + s - 1 < (c + 1) * s) by (nonlinear_arith)
                requires
                    c * s >= n,
            ;
            vstd::arithmetic::div_mod::lemma_div_is_ordered(n + s - 1, (c + 1) * s - 1, s);
            vstd::arithmetic::div_mod::lemma_fundamental_div_mod((c + 1) * s - 1, s);
            vstd::arithmetic::div_mod::lemma_mod_pos_bound((c + 1) * s - 1, s);
            assert(((c + 1) * s - 1) / s <= c) by (nonlinear_arith)
                requires
                    (c + 1) * s - 1 == s * (((c + 1) * s - 1) / s) + ((c + 1) * s - 1) % s,
                    0 <= ((c + 1) * s - 1) % s,
                    s >= 1,
            ;
        }
    }
}

/// Write a downsampled top-down view of a `region_w x region_h` grid of
/// display colors into `out`, starting at pixel `(origin_x, origin_z)`.
///
/// At `scale = 1` each output pixel is one block; at `scale = N` each pixel
/// is the most common non-void display color of its `N x N` block area (see
/// [`most_common_shaded_color`]). A scale of 0 counts as 1.
pub fn blit_scaled_shaded(
    out: &mut Canvas,
    colors: &[[u8; 3]],
    region_w: usize,
    region_h: usize,
    scale: u32,
    origin_x: u32,
    origin_z: u32,
)
    requires
        old(out).wf(),
        colors@.len() == region_w * region_h,
        region_w + at_least_one(scale) <= usize::MAX,
        region_h + at_least_one(scale) <= usize::MAX,
        origin_x + cells_for(region_w as int, at_least_one(scale)) <= old(out).width,
        origin_z + cells_for(region_h as int, at_least_one(scale)) <= old(out).height,
    ensures
        final(out).width == old(out).width,
        final(out).height == old(out).height,
        painted(
            old(out).pixels@,
            final(out).pixels@,
            old(out).width as int,
            old(out).height as int,
            origin_x as int,
            origin_z as int,
            cells_for(region_w as int, at_least_one(scale)),
            cells_for(region_h as int, at_least_one(scale)),
            scaled_painter(colors@, region_w as int, region_h as int, at_least_one(scale), false),
        ),
{
    let s: usize = if scale == 0 { 1 } else { scale as usize };
    let cells_w = (region_w + s - 1) / s;
    let cells_h = (region_h + s - 1) / s;
    let ghost f = scaled_painter(colors@, region_w as int, region_h as int, s as int, false);
    let ghost old_px = out.pixels@;
    let ghost w = out.width as int;
    let ghost h = out.height as int;
    let mut cz: usize = 0;
    while cz < cells_h
        invariant
            out.wf(),
            out.width == w,
            out.height == h,
            old_px.len() == w * h,
            s == at_least_one(scale),
            s >= 1,
            cells_w == cells_for(region_w as int, s as int),
            cells_h == cells_for(region_h as int, s as int),
            colors@.len() == region_w * region_h,
            region_w + s <= usize::MAX,
            region_h + s <= usize::MAX,
            origin_x + cells_w <= w,
            origin_z + cells_h <= h,
            f == scaled_painter(colors@, region_w as int, region_h as int, s as int, false),
            cz <= cells_h,
            painted_upto(old_px, out.pixels@, w, h, origin_x as int, origin_z as int, cells_w as int, cells_h as int, f, cz as int, 0),
        decreases cells_h - cz,
    {
        let mut cx: usize = 0;
        while cx < cells_w
            invariant
                out.wf(),
                out.width == w,
                out.height == h,
                old_px.len() == w * h,
                s == at_least_one(scale),
                s >= 1,
                cells_w == cells_for(region_w as int, s as int),
                cells_h == cells_for(region_h as int, s as int),
                colors@.len() == region_w * region_h,
                region_w + s <= usize::MAX,
                region_h + s <= usize::MAX,
                origin_x + cells_w <= w,
                origin_z + cells_h <= h,
                f == scaled_painter(colors@, region_w as int, region_h as int, s as int, false),
                cz < cells_h,
                cx <= cells_w,
                painted_upto(old_px, out.pixels@, w, h, origin_x as int, origin_z as int, cells_w as int, cells_h as int, f, cz as int, cx as int),
            decreases cells_w - cx,
        {
            proof {
                lemma_cell_area(region_w as int, s as int, cx as int);
                lemma_cell_area(region_h as int, s as int, cz as int);
            }
            let rgb = if s == 1 {
                proof {
                    lemma_cell_in_grid(region_w as int, region_h as int, cx as int, cz as int);
                }
                let n = colors.len();
                assert(cz * region_w + cx < n);
                colors[cz * region_w + cx]
            } else {
                let x0 = cx * s;
                let z0 = cz * s;
                let x1 = if region_w - x0 > s { x0 + s } else { region_w };
                let z1 = if region_h - z0 > s { z0 + s } else { region_h };
                assert(z1 * region_w <= colors@.len()) by (nonlinear_arith)
                    requires
                        z1 <= region_h,
                        colors@.len() == region_w * region_h,
                ;
                most_common_shaded_color(colors, region_w, x0, x1, z0, z1)
            };
            assert(rgb == f(cx as int, cz as int));
            let ghost cur = out.pixels@;
            out.put_pixel(origin_x + cx as u32, origin_z + cz as u32, rgb);
            proof {
                lemma_paint_step(old_px, cur, out.pixels@, w, h, origin_x as int, origin_z as int, cells_w as int, cells_h as int, f, cz as int, cx as int);
            }
            cx = cx + 1;
        }
        cz = cz + 1;
    }
    proof {
        lemma_paint_done(old_px, out.pixels@, w, h, origin_x as int, origin_z as int, cells_w as int, cells_h as int, f);
    }
}

/// The display colors of every column of a region, night-darkened when
/// night mode is on.
pub open spec fn region_night_colors(
    blocks: Seq<Option<String>>,
    under: Seq<Option<String>>,
    transparency: bool,
    night: bool,
) -> Seq<[u8; 3]> {
    Seq::new(blocks.len(), |i: int| night_for(region_colors(blocks, under, transparency)[i], night))
}

/// The display color of every column, night-darkened when `night` is set.
fn display_colors(blocks: &[Option<String>], under: &[Option<String>], transparency: bool, night: bool) -> (out: Vec<
    [u8; 3],
>)
    requires
        blocks@.len() == under@.len(),
    ensures
        out@ == region_night_colors(blocks@, under@, transparency, night),
{
    let mut out: Vec<[u8; 3]> = Vec::new();
    let mut i: usize = 0;
    while i < blocks.len()
        invariant
            blocks@.len() == under@.len(),
            i <= blocks@.len(),
            out@ == region_night_colors(blocks@, under@, transparency, night).take(i as int),
        decreases blocks@.len() - i,
    {
        let c = darken_for(display_color(&blocks[i], &under[i], transparency), night);
        out.push(c);
        assert(out@ =~= region_night_colors(blocks@, under@, transparency, night).take(i + 1));
        i = i + 1;
    }
    assert(out@ =~= region_night_colors(blocks@, under@, transparency, night));
    out
}

/// Write a downsampled top-down view of a `region_w x region_h` block region
/// into `out`, starting at pixel `(origin_x, origin_z)`.
///
/// `blocks` holds the highest non-air block of every column (`None` for
/// void) and `under` the block seen through water. At `scale = 1` each output
/// pixel is a single block; at `scale = N` each output pixel covers an
/// `N x N` block area and is colored by the most common block in that area
/// (see [`most_common_color`]; void is ignored, an all-void area is black).
/// In night mode every pixel is night-darkened. A scale of 0 counts as 1.
pub fn blit_scaled(
    out: &mut Canvas,
    blocks: &[Option<String>],
    under: &[Option<String>],
    region_w: usize,
    region_h: usize,
    scale: u32,
    origin_x: u32,
    origin_z: u32,
    transparency: bool,
    night: bool,
)
    requires
        old(out).wf(),
        blocks@.len() == region_w * region_h,
        under@.len() == region_w * region_h,
        region_w + at_least_one(scale) <= usize::MAX,
        region_h + at_least_one(scale) <= usize::MAX,
        origin_x + cells_for(region_w as int, at_least_one(scale)) <= old(out).width,
        origin_z + cells_for(region_h as int, at_least_one(scale)) <= old(out).height,
    ensures
        final(out).width == old(out).width,
        final(out).height == old(out).height,
        painted(
            old(out).pixels@,
            final(out).pixels@,
            old(out).width as int,
            old(out).height as int,
            origin_x as int,
            origin_z as int,
            cells_for(region_w as int, at_least_one(scale)),
            cells_for(region_h as int, at_least_one(scale)),
            scaled_painter(
                region_colors(blocks@, under@, transparency),
                region_w as int,
                region_h as int,
                at_least_one(scale),
                night,
            ),
        ),
{
    let s: usize = if scale == 0 { 1 } else { scale as usize };
    let cells_w = (region_w + s - 1) / s;
    let cells_h = (region_h + s - 1) / s;
    let ghost colors = region_colors(blocks@, under@, transparency);
    let ghost f = scaled_painter(colors, region_w as int, region_h as int, s as int, night);
    let ghost old_px = out.pixels@;
    let ghost w = out.width as int;
    let ghost h = out.height as int;
    let mut cz: usize = 0;
    while cz < cells_h
        invariant
            out.wf(),
            out.width == w,
            out.height == h,
            old_px.len() == w * h,
            s == at_least_one(scale),
            s >= 1,
            cells_w == cells_for(region_w as int, s as int),
            cells_h == cells_for(region_h as int, s as int),
            blocks@.len() == region_w * region_h,
            under@.len() == region_w * region_h,
            colors == region_colors(blocks@, under@, transparency),
            region_w + s <= usize::MAX,
            region_h + s <= usize::MAX,
            origin_x + cells_w <= w,
            origin_z + cells_h <= h,
            f == scaled_painter(colors, region_w as int, region_h as int, s as int, night),
            cz <= cells_h,
            painted_upto(old_px, out.pixels@, w, h, origin_x as int, origin_z as int, cells_w as int, cells_h as int, f, cz as int, 0),
        decreases cells_h - cz,
    {
        let mut cx: usize = 0;
        while cx < cells_w
            invariant
                out.wf(),
                out.width == w,
                out.height == h,
                old_px.len() == w * h,
                s == at_least_one(scale),
                s >= 1,
                cells_w == cells_for(region_w as int, s as int),
                cells_h == cells_for(region_h as int, s as int),
                blocks@.len() == region_w * region_h,
                under@.len() == region_w * region_h,
                colors == region_colors(blocks@, under@, transparency),
                region_w + s <= usize::MAX,
                region_h + s <= usize::MAX,
                origin_x + cells_w <= w,
                origin_z + cells_h <= h,
                f == scaled_painter(colors, region_w as int, region_h as int, s as int, night),
                cz < cells_h,
                cx <= cells_w,
                painted_upto(old_px, out.pixels@, w, h, origin_x as int, origin_z as int, cells_w as int, cells_h as int, f, cz as int, cx as int),
            decreases cells_w - cx,
        {
            proof {
                lemma_cell_area(region_w as int, s as int, cx as int);
                lemma_cell_area(region_h as int, s as int, cz as int);
            }
            let base = if s == 1 {
                proof {
                    lemma_cell_in_grid(region_w as int, region_h as int, cx as int, cz as int);
                }
                let n = blocks.len();
                assert(cz * region_w + cx < n);
                let i = cz * region_w + cx;
                display_color(&blocks[i], &under[i], transparency)
            } else {
                let x0 = cx * s;
                let z0 = cz * s;
                let x1 = if region_w - x0 > s { x0 + s } else { region_w };
                let z1 = if region_h - z0 > s { z0 + s } else { region_h };
                assert(z1 * region_w <= blocks@.len()) by (nonlinear_arith)
                    requires
                        z1 <= region_h,
                        blocks@.len() == region_w * region_h,
                ;
                most_common_color(blocks, under, region_w, x0, x1, z0, z1, transparency)
            };
            let rgb = darken_for(base, night);
            assert(rgb == f(cx as int, cz as int));
            let ghost cur = out.pixels@;
            out.put_pixel(origin_x + cx as u32, origin_z + cz as u32, rgb);
            proof {
                lemma_paint_step(old_px, cur, out.pixels@, w, h, origin_x as int, origin_z as int, cells_w as int, cells_h as int, f, cz as int, cx as int);
            }
            cx = cx + 1;
        }
        cz = cz + 1;
    }
    proof {
        lemma_paint_done(old_px, out.pixels@, w, h, origin_x as int, origin_z as int, cells_w as int, cells_h as int, f);
    }
}

/// The painter of an upsampled region: every pixel takes the color of its
/// block, so each block becomes a solid `s x s` square.
pub open spec fn block_painter(colors: Seq<[u8; 3]>, rw: int, s: int) -> spec_fn(int, int) -> [u8; 3] {
    |px: int, pz: int| colors[cell(rw, px / s, pz / s)]
}

/// Write a top-down view where every block is a solid `s x s` pixel square,
/// starting at pixel `(origin_x, origin_z)`, with no interpolation between
/// blocks: every pixel of a block's square gets the block's own display
/// color (night-darkened in night mode; void is [`NO_BLOCK`]). An `s` of 0
/// counts as 1.
pub fn blit_supersampled(
    out: &mut Canvas,
    blocks: &[Option<String>],
    under: &[Option<String>],
    region_w: usize,
    region_h: usize,
    s: usize,
    origin_x: u32,
    origin_z: u32,
    transparency: bool,
    night: bool,
)
    requires
        old(out).wf(),
        blocks@.len() == region_w * region_h,
        under@.len() == region_w * region_h,
        origin_x + region_w * (if s == 0 { 1 } else { s as int }) <= old(out).width,
        origin_z + region_h * (if s == 0 { 1 } else { s as int }) <= old(out).height,
    ensures
        final(out).width == old(out).width,
        final(out).height == old(out).height,
        painted(
            old(out).pixels@,
            final(out).pixels@,
            old(out).width as int,
            old(out).height as int,
            origin_x as int,
            origin_z as int,
            region_w * (if s == 0 { 1 } else { s as int }),
            region_h * (if s == 0 { 1 } else { s as int }),
            block_painter(
                region_night_colors(blocks@, under@, transparency, night),
                region_w as int,
                if s == 0 { 1 } else { s as int },
            ),
        ),
{
    let s: usize = if s == 0 { 1 } else { s };
    let colors = display_colors(blocks, under, transparency, night);
    let pw = region_w * s;
    let ph = region_h * s;
    let ghost f = block_painter(colors@, region_w as int, s as int);
    let ghost old_px = out.pixels@;
    let ghost w = out.width as int;
    let ghost h = out.height as int;
    let mut pz: usize = 0;
    while pz < ph
        invariant
            out.wf(),
            out.width == w,
            out.height == h,
            old_px.len() == w * h,
            s >= 1,
            pw == region_w * s,
            ph == region_h * s,
            colors@.len() == region_w * region_h,
            origin_x + pw <= w,
            origin_z + ph <= h,
            f == block_painter(colors@, region_w as int, s as int),
            pz <= ph,
            painted_upto(old_px, out.pixels@, w, h, origin_x as int, origin_z as int, pw as int, ph as int, f, pz as int, 0),
        decreases ph - pz,
    {
        let mut px: usize = 0;
        while px < pw
            invariant
                out.wf(),
                out.width == w,
                out.height == h,
                old_px.len() == w * h,
                s >= 1,
                pw == region_w * s,
                ph == region_h * s,
                colors@.len() == region_w * region_h,
                origin_x + pw <= w,
                origin_z + ph <= h,
                f == block_painter(colors@, region_w as int, s as int),
                pz < ph,
                px <= pw,
                painted_upto(old_px, out.pixels@, w, h, origin_x as int, origin_z as int, pw as int, ph as int, f, pz as int, px as int),
            decreases pw - px,
        {
            proof {
                crate::light::lemma_pixel_block(px as int, s as int, region_w as int);
                crate::light::lemma_pixel_block(pz as int, s as int, region_h as int);
                lemma_cell_in_grid(region_w as int, region_h as int, (px / s) as int, (pz / s) as int);
            }
            let bx = px / s;
            let bz = pz / s;
            let n = colors.len();
            assert(bz * region_w + bx < n);
            let rgb = colors[bz * region_w + bx];
            let ghost cur = out.pixels@;
            out.put_pixel(origin_x + px as u32, origin_z + pz as u32, rgb);
            proof {
                lemma_paint_step(old_px, cur, out.pixels@, w, h, origin_x as int, origin_z as int, pw as int, ph as int, f, pz as int, px as int);
            }
            px = px + 1;
        }
        pz = pz + 1;
    }
    proof {
        lemma_paint_done(old_px, out.pixels@, w, h, origin_x as int, origin_z as int, pw as int, ph as int, f);
    }
}

/// `c` brightened by the additive glow `g`, each channel clamped at 255.
pub open spec fn glow_added(c: [u8; 3], g: [u8; 3]) -> [u8; 3] {
    [
        (if c[0] + g[0] > 255 { 255 } else { c[0] + g[0] }) as u8,
        (if c[1] + g[1] > 255 { 255 } else { c[1] + g[1] }) as u8,
        (if c[2] + g[2] > 255 { 255 } else { c[2] + g[2] }) as u8,
    ]
}

/// A pixel of base color `base` after the lighting passes: shadow darkening
/// first (when `shadowed`), then ambient occlusion (a darkness of `dark` out
/// of `band`), then the additive bloom `glow`, so a shadowed pixel next to a
/// light still glows.
pub open spec fn lit_pixel(base: [u8; 3], shadowed: bool, dark: u32, band: int, glow: [u8; 3], night: bool) -> [u8; 3] {
    let a = if shadowed {
        shaded_for(base, night)
    } else {
        base
    };
    let b = if dark > 0 {
        scaled(a, band - dark, band)
    } else {
        a
    };
    glow_added(b, glow)
}

/// Darkening never hides a light, and only a light brightens: every
/// channel of a lit pixel is at least the bloom added to it, whatever the
/// shadow and ambient occlusion; and without bloom no channel is brighter
/// than the base color.
pub proof fn lemma_glow_survives_darkening(
    base: [u8; 3],
    shadowed: bool,
    dark: u32,
    band: int,
    glow: [u8; 3],
    night: bool,
)
    requires
        dark > 0 ==> 0 < band && dark <= band,
    ensures
        forall|k: int| 0 <= k < 3 ==> #[trigger] lit_pixel(base, shadowed, dark, band, glow, night)[k] >= glow[k],
        glow == NO_BLOCK ==> forall|k: int|
            0 <= k < 3 ==> #[trigger] lit_pixel(base, shadowed, dark, band, glow, night)[k] <= base[k],
{
    let a = if shadowed {
        shaded_for(base, night)
    } else {
        base
    };
    if shadowed {
        if night {
            lemma_shading_never_brightens(base, 20, 100);
        } else {
            lemma_shading_never_brightens(base, 55, 100);
        }
    }
    if dark > 0 {
        lemma_shading_never_brightens(a, band - dark, band);
    }
}

/// The contents of an optional mask.
pub open spec fn mask_view<T>(m: Option<&[T]>) -> Option<Seq<T>> {
    match m {
        Some(v) => Some(v@),
        None => None,
    }
}

/// Entry `i` of an optional shadow mask; no mask shadows nothing.
pub open spec fn shadow_at(m: Option<Seq<bool>>, i: int) -> bool {
    match m {
        Some(v) => v[i],
        None => false,
    }
}

/// Entry `i` of an optional ambient-occlusion field; no field darkens nothing.
pub open spec fn dark_at(m: Option<Seq<u32>>, i: int) -> u32 {
    match m {
        Some(v) => v[i],
        None => 0,
    }
}

/// Entry `i` of an optional bloom field; no field adds nothing.
pub open spec fn glow_at(m: Option<Seq<[u8; 3]>>, i: int) -> [u8; 3] {
    match m {
        Some(v) => v[i],
        None => NO_BLOCK,
    }
}

/// The painter of an upsampled region with lighting: each pixel takes its
/// block's color and then the shadow, ambient-occlusion and bloom passes at
/// that pixel (masks indexed `pz * (rw * s) + px`).
pub open spec fn lit_painter(
    colors: Seq<[u8; 3]>,
    rw: int,
    s: int,
    shadow: Option<Seq<bool>>,
    ao: Option<Seq<u32>>,
    bloom: Option<Seq<[u8; 3]>>,
    night: bool,
) -> spec_fn(int, int) -> [u8; 3] {
    |px: int, pz: int|
        {
            let pi = cell(rw * s, px, pz);
            lit_pixel(
                colors[cell(rw, px / s, pz / s)],
                shadow_at(shadow, pi),
                dark_at(ao, pi),
                s / 4,
                glow_at(bloom, pi),
                night,
            )
        }
}

fn add_channel(c: u8, g: u8) -> (r: u8)
    ensures
        r == (if c + g > 255 { 255 } else { c + g }),
{
    let v = c as u16 + g as u16;
    if v > 255 {
        255
    } else {
        v as u8
    }
}

/// One pixel through the lighting passes (see [`lit_pixel`]).
fn light_pixel(base: [u8; 3], shadowed: bool, dark: u32, band: u32, glow: [u8; 3], night: bool) -> (out: [u8; 3])
    requires
        dark <= band,
    ensures
        out == lit_pixel(base, shadowed, dark, band as int, glow, night),
{
    let a = if shadowed {
        shade_for(base, night)
    } else {
        base
    };
    let b = if dark > 0 {
        apply_ao(a, dark, band)
    } else {
        a
    };
    [add_channel(b[0], glow[0]), add_channel(b[1], glow[1]), add_channel(b[2], glow[2])]
}

/// The lit pixel `(px, pz)` of an upsampled grid: its block's color through
/// the optional shadow, ambient-occlusion and bloom masks.
fn lit_at(
    colors: &[[u8; 3]],
    shadow: Option<&[bool]>,
    ao: Option<&[u32]>,
    bloom: Option<&[[u8; 3]]>,
    grid_w: usize,
    grid_h: usize,
    s: usize,
    px: usize,
    pz: usize,
    night: bool,
) -> (out: [u8; 3])
    requires
        s >= 1,
        colors@.len() == grid_w * grid_h,
        px < grid_w * s,
        pz < grid_h * s,
        (grid_w * s) * (grid_h * s) <= usize::MAX,
        match shadow {
            Some(m) => m@.len() == (grid_w * s) * (grid_h * s),
            None => true,
        },
        match ao {
            Some(m) => m@.len() == (grid_w * s) * (grid_h * s) && s <= u32::MAX && forall|i: int|
                0 <= i < m@.len() ==> #[trigger] m@[i] <= s / 4,
            None => true,
        },
        match bloom {
            Some(m) => m@.len() == (grid_w * s) * (grid_h * s),
            None => true,
        },
    ensures
        out == lit_painter(
            colors@,
            grid_w as int,
            s as int,
            mask_view(shadow),
            mask_view(ao),
            mask_view(bloom),
            night,
        )(px as int, pz as int),
{
    proof {
        crate::light::lemma_pixel_block(px as int, s as int, grid_w as int);
        crate::light::lemma_pixel_block(pz as int, s as int, grid_h as int);
        lemma_cell_in_grid(grid_w as int, grid_h as int, (px / s) as int, (pz / s) as int);
        lemma_cell_in_grid((grid_w * s) as int, (grid_h * s) as int, px as int, pz as int);
    }
    assert(grid_w * s <= (grid_w * s) * (grid_h * s)) by (nonlinear_arith)
        requires
            pz < grid_h * s,
            grid_w * s >= 0,
    ;
    let pw = grid_w * s;
    let bx = px / s;
    let bz = pz / s;
    let n = colors.len();
    assert(bz * grid_w + bx < n);
    let base = colors[bz * grid_w + bx];
    assert(pz * pw + px < (grid_w * s) * (grid_h * s));
    let pi = pz * pw + px;
    let shadowed = match shadow {
        Some(m) => m[pi],
        None => false,
    };
    let dark = match ao {
        Some(m) => m[pi],
        None => 0,
    };
    let band: u32 = if dark > 0 { (s / 4) as u32 } else { 0 };
    assert(dark > 0 ==> band == s / 4);
    let glow = match bloom {
        Some(m) => m[pi],
        None => NO_BLOCK,
    };
    light_pixel(base, shadowed, dark, band, glow, night)
}

/// Fill `img` from block-resolution `colors`, drawing every block as a solid
/// `s x s` pixel square (no interpolation between blocks), optionally
/// darkening each pixel independently by a pixel-resolution shadow mask
/// (see [`crate::light::supersampled_heights`]) and/or an ambient-occlusion
/// field, and/or brightening it by a bloom field. All masks, when present,
/// are sized `grid_w * s x grid_h * s` (index `pz * grid_w * s + px`). Shadow
/// and AO darken first, then bloom brightens, so the three compose (see
/// [`lit_pixel`]).
pub fn render_ss(
    img: &mut Canvas,
    colors: &[[u8; 3]],
    pixel_shadow: Option<&[bool]>,
    pixel_ao: Option<&[u32]>,
    pixel_bloom: Option<&[[u8; 3]]>,
    grid_w: usize,
    grid_h: usize,
    s: usize,
    night: bool,
)
    requires
        old(img).wf(),
        colors@.len() == grid_w * grid_h,
        grid_w * s <= old(img).width,
        grid_h * s <= old(img).height,
        match pixel_shadow {
            Some(m) => m@.len() == (grid_w * s) * (grid_h * s),
            None => true,
        },
        match pixel_ao {
            Some(m) => m@.len() == (grid_w * s) * (grid_h * s) && s <= u32::MAX && forall|i: int|
                0 <= i < m@.len() ==> #[trigger] m@[i] <= s / 4,
            None => true,
        },
        match pixel_bloom {
            Some(m) => m@.len() == (grid_w * s) * (grid_h * s),
            None => true,
        },
    ensures
        final(img).width == old(img).width,
        final(img).height == old(img).height,
        painted(
            old(img).pixels@,
            final(img).pixels@,
            old(img).width as int,
            old(img).height as int,
            0,
            0,
            grid_w * s,
            grid_h * s,
            lit_painter(
                colors@,
                grid_w as int,
                s as int,
                mask_view(pixel_shadow),
                mask_view(pixel_ao),
                mask_view(pixel_bloom),
                night,
            ),
        ),
{
    let ghost f = lit_painter(
        colors@,
        grid_w as int,
        s as int,
        mask_view(pixel_shadow),
        mask_view(pixel_ao),
        mask_view(pixel_bloom),
        night,
    );
    let ghost old_px = img.pixels@;
    let ghost w = img.width as int;
    let ghost h = img.height as int;
    proof {
        assert((grid_w * s) * (grid_h * s) <= w * h) by (nonlinear_arith)
            requires
                grid_w * s <= w,
                grid_h * s <= h,
                grid_w * s >= 0,
                grid_h * s >= 0,
        ;
    }
    let total = img.pixels.len();
    let pw = grid_w * s;
    let ph = grid_h * s;
    let mut pz: usize = 0;
    while pz < ph
        invariant
            img.wf(),
            img.width == w,
            img.height == h,
            old_px.len() == w * h,
            pw == grid_w * s,
            ph == grid_h * s,
            pw <= w,
            ph <= h,
            pw * ph <= usize::MAX,
            colors@.len() == grid_w * grid_h,
            match pixel_shadow {
                Some(m) => m@.len() == pw * ph,
                None => true,
            },
            match pixel_ao {
                Some(m) => m@.len() == pw * ph && s <= u32::MAX && forall|i: int| 0 <= i < m@.len() ==> #[trigger] m@[i] <= s / 4,
                None => true,
            },
            match pixel_bloom {
                Some(m) => m@.len() == pw * ph,
                None => true,
            },
            f == lit_painter(
                colors@,
                grid_w as int,
                s as int,
                mask_view(pixel_shadow),
                mask_view(pixel_ao),
                mask_view(pixel_bloom),
                night,
            ),
            pz <= ph,
            painted_upto(old_px, img.pixels@, w, h, 0, 0, pw as int, ph as int, f, pz as int, 0),
        decreases ph - pz,
    {
        let mut px: usize = 0;
        while px < pw
            invariant
                img.wf(),
                img.width == w,
                img.height == h,
                old_px.len() == w * h,
                pw == grid_w * s,
                ph == grid_h * s,
                pw <= w,
                ph <= h,
                pw * ph <= usize::MAX,
                colors@.len() == grid_w * grid_h,
                match pixel_shadow {
                    Some(m) => m@.len() == pw * ph,
                    None => true,
                },
                match pixel_ao {
                    Some(m) => m@.len() == pw * ph && s <= u32::MAX && forall|i: int| 0 <= i < m@.len() ==> #[trigger] m@[i] <= s / 4,
                    None => true,
                },
                match pixel_bloom {
                    Some(m) => m@.len() == pw * ph,
                    None => true,
                },
                f == lit_painter(
                    colors@,
                    grid_w as int,
                    s as int,
                    mask_view(pixel_shadow),
                    mask_view(pixel_ao),
                    mask_view(pixel_bloom),
                    night,
                ),
                pz < ph,
                px <= pw,
                painted_upto(old_px, img.pixels@, w, h, 0, 0, pw as int, ph as int, f, pz as int, px as int),
            decreases pw - px,
        {
            assert(s >= 1) by (nonlinear_arith)
                requires
                    px < pw,
                    pw == grid_w * s,
            ;
            let rgb = lit_at(colors, pixel_shadow, pixel_ao, pixel_bloom, grid_w, grid_h, s, px, pz, night);
            let ghost cur = img.pixels@;
            img.put_pixel(px as u32, pz as u32, rgb);
            proof {
                lemma_paint_step(old_px, cur, img.pixels@, w, h, 0, 0, pw as int, ph as int, f, pz as int, px as int);
            }
            px = px + 1;
        }
        pz = pz + 1;
    }
    proof {
        lemma_paint_done(old_px, img.pixels@, w, h, 0, 0, pw as int, ph as int, f);
    }
}

/// Like [`blit_supersampled`], but each block's `s x s` pixels are
/// additionally darkened by an ambient-occlusion field and/or brightened by
/// an additive bloom field, both sized `region_w * s x region_h * s`
/// (rectangle-local index `pz * region_w * s + px`). AO darkens first, then
/// bloom brightens, so a darkened pixel next to a light still glows.
pub fn blit_supersampled_fx(
    out: &mut Canvas,
    blocks: &[Option<String>],
    under: &[Option<String>],
    region_w: usize,
    region_h: usize,
    s: usize,
    ao: Option<&[u32]>,
    bloom: Option<&[[u8; 3]]>,
    origin_x: u32,
    origin_z: u32,
    transparency: bool,
    night: bool,
)
    requires
        old(out).wf(),
        s >= 1,
        blocks@.len() == region_w * region_h,
        under@.len() == region_w * region_h,
        origin_x + region_w * s <= old(out).width,
        origin_z + region_h * s <= old(out).height,
        match ao {
            Some(m) => m@.len() == (region_w * s) * (region_h * s) && s <= u32::MAX && forall|i: int|
                0 <= i < m@.len() ==> #[trigger] m@[i] <= s / 4,
            None => true,
        },
        match bloom {
            Some(m) => m@.len() == (region_w * s) * (region_h * s),
            None => true,
        },
    ensures
        final(out).width == old(out).width,
        final(out).height == old(out).height,
        painted(
            old(out).pixels@,
            final(out).pixels@,
            old(out).width as int,
            old(out).height as int,
            origin_x as int,
            origin_z as int,
            region_w * s,
            region_h * s,
            lit_painter(
                region_night_colors(blocks@, under@, transparency, night),
                region_w as int,
                s as int,
                None,
                mask_view(ao),
                mask_view(bloom),
                night,
            ),
        ),
{
    let colors = display_colors(blocks, under, transparency, night);
    let ghost f = lit_painter(colors@, region_w as int, s as int, None, mask_view(ao), mask_view(bloom), night);
    let ghost old_px = out.pixels@;
    let ghost w = out.width as int;
    let ghost h = out.height as int;
    let total = out.pixels.len();
    assert((region_w * s) * (region_h * s) <= w * h) by (nonlinear_arith)
        requires
            origin_x + region_w * s <= w,
            origin_z + region_h * s <= h,
            region_w * s >= 0,
            region_h * s >= 0,
    ;
    let pw = region_w * s;
    let ph = region_h * s;
    let mut pz: usize = 0;
    while pz < ph
        invariant
            out.wf(),
            out.width == w,
            out.height == h,
            old_px.len() == w * h,
            s >= 1,
            pw == region_w * s,
            ph == region_h * s,
            pw * ph <= usize::MAX,
            colors@.len() == region_w * region_h,
            origin_x + pw <= w,
            origin_z + ph <= h,
            match ao {
                Some(m) => m@.len() == pw * ph && s <= u32::MAX && forall|i: int| 0 <= i < m@.len() ==> #[trigger] m@[i] <= s / 4,
                None => true,
            },
            match bloom {
                Some(m) => m@.len() == pw * ph,
                None => true,
            },
            f == lit_painter(colors@, region_w as int, s as int, None, mask_view(ao), mask_view(bloom), night),
            pz <= ph,
            painted_upto(old_px, out.pixels@, w, h, origin_x as int, origin_z as int, pw as int, ph as int, f, pz as int, 0),
        decreases ph - pz,
    {
        let mut px: usize = 0;
        while px < pw
            invariant
                out.wf(),
                out.width == w,
                out.height == h,
                old_px.len() == w * h,
                s >= 1,
                pw == region_w * s,
                ph == region_h * s,
                pw * ph <= usize::MAX,
                colors@.len() == region_w * region_h,
                origin_x + pw <= w,
                origin_z + ph <= h,
                match ao {
                    Some(m) => m@.len() == pw * ph && s <= u32::MAX && forall|i: int| 0 <= i < m@.len() ==> #[trigger] m@[i] <= s / 4,
                    None => true,
                },
                match bloom {
                    Some(m) => m@.len() == pw * ph,
                    None => true,
                },
                f == lit_painter(colors@, region_w as int, s as int, None, mask_view(ao), mask_view(bloom), night),
                pz < ph,
                px <= pw,
                painted_upto(old_px, out.pixels@, w, h, origin_x as int, origin_z as int, pw as int, ph as int, f, pz as int, px as int),
            decreases pw - px,
        {
            let rgb = lit_at(colors.as_slice(), None, ao, bloom, region_w, region_h, s, px, pz, night);
            let ghost cur = out.pixels@;
            out.put_pixel(origin_x + px as u32, origin_z + pz as u32, rgb);
            proof {
                lemma_paint_step(old_px, cur, out.pixels@, w, h, origin_x as int, origin_z as int, pw as int, ph as int, f, pz as int, px as int);
            }
            px = px + 1;
        }
        pz = pz + 1;
    }
    proof {
        lemma_paint_done(old_px, out.pixels@, w, h, origin_x as int, origin_z as int, pw as int, ph as int, f);
    }
}

/// Blit a chunk into an already-sized shared image at a given pixel offset.
///
/// `offset_x` / `offset_z` are the pixel coordinates of the chunk's top-left
/// corner inside the big image. At `scale = 1` that is the chunk's block
/// offset; at `scale = N` it is the chunk's block offset divided by N, and
/// the chunk is downsampled so each pixel represents an `N x N` block area
/// (see [`blit_scaled`]).
pub fn render_into_big(
    img: &mut Canvas,
    top: &ChunkTop,
    offset_x: u32,
    offset_z: u32,
    scale: u32,
    transparency: bool,
    night: bool,
)
    requires
        old(img).wf(),
        top_sized(*top),
        CHUNK_SIZE + at_least_one(scale) <= usize::MAX,
        offset_x + cells_for(CHUNK_SIZE as int, at_least_one(scale)) <= old(img).width,
        offset_z + cells_for(CHUNK_SIZE as int, at_least_one(scale)) <= old(img).height,
    ensures
        final(img).width == old(img).width,
        final(img).height == old(img).height,
        painted(
            old(img).pixels@,
            final(img).pixels@,
            old(img).width as int,
            old(img).height as int,
            offset_x as int,
            offset_z as int,
            cells_for(CHUNK_SIZE as int, at_least_one(scale)),
            cells_for(CHUNK_SIZE as int, at_least_one(scale)),
            scaled_painter(
                region_colors(top.blocks@, top.under@, transparency),
                CHUNK_SIZE as int,
                CHUNK_SIZE as int,
                at_least_one(scale),
                night,
            ),
        ),
{
    blit_scaled(
        img,
        top.blocks.as_slice(),
        top.under.as_slice(),
        CHUNK_SIZE,
        CHUNK_SIZE,
        scale,
        offset_x,
        offset_z,
        transparency,
        night,
    );
}

/// Every pixel of `img` is what `f` paints there.
pub open spec fn fully_painted(img: Canvas, f: spec_fn(int, int) -> [u8; 3]) -> bool {
    &&& img.wf()
    &&& forall|x: int, y: int|
        0 <= x < img.width && 0 <= y < img.height ==> #[trigger] img.pixels@[cell(img.width as int, x, y)] == f(
            x,
            y,
        )
}

/// The top-down view of a chunk: `ceil(16 / scale)` pixels on each side. At
/// `scale = 1` each pixel is one column's highest non-air block; at
/// `scale = N` each pixel is the most common block of its `N x N` area.
pub fn chunk_image(top: &ChunkTop, scale: u32, transparency: bool, night: bool) -> (img: Canvas)
    requires
        top_sized(*top),
        scale >= 1,
        CHUNK_SIZE + scale <= usize::MAX,
    ensures
        img.width == cells_for(CHUNK_SIZE as int, scale as int),
        img.height == cells_for(CHUNK_SIZE as int, scale as int),
        fully_painted(
            img,
            scaled_painter(
                region_colors(top.blocks@, top.under@, transparency),
                CHUNK_SIZE as int,
                CHUNK_SIZE as int,
                scale as int,
                night,
            ),
        ),
{
    let size = (CHUNK_SIZE + scale as usize - 1) / scale as usize;
    assert(size <= CHUNK_SIZE) by {
        vstd::arithmetic::div_mod::lemma_div_is_ordered(CHUNK_SIZE + scale - 1, CHUNK_SIZE * scale, scale as int);
        vstd::arithmetic::div_mod::lemma_div_multiples_vanish(CHUNK_SIZE as int, scale as int);
        assert(CHUNK_SIZE * scale == scale * CHUNK_SIZE) by (nonlinear_arith);
        assert(CHUNK_SIZE + scale - 1 <= CHUNK_SIZE * scale) by (nonlinear_arith)
            requires
                scale >= 1,
        ;
    }
    assert(size * size <= 256) by (nonlinear_arith)
        requires
            size <= 16,
    ;
    let mut img = Canvas::new(size as u32, size as u32);
    blit_scaled(
        &mut img,
        top.blocks.as_slice(),
        top.under.as_slice(),
        CHUNK_SIZE,
        CHUNK_SIZE,
        scale,
        0,
        0,
        transparency,
        night,
    );
    img
}

/// The top-down view of a chunk where each of its 16x16 blocks becomes a
/// solid `scale x scale` pixel square, so the output is `16 * scale` on each
/// side (no interpolation between blocks).
pub fn chunk_image_ss(top: &ChunkTop, scale: u32, transparency: bool, night: bool) -> (img: Canvas)
    requires
        top_sized(*top),
        scale >= 1,
        CHUNK_SIZE * scale <= u32::MAX,
        (CHUNK_SIZE * scale) * (CHUNK_SIZE * scale) <= usize::MAX,
    ensures
        img.width == CHUNK_SIZE * scale,
        img.height == CHUNK_SIZE * scale,
        fully_painted(
            img,
            block_painter(
                region_night_colors(top.blocks@, top.under@, transparency, night),
                CHUNK_SIZE as int,
                scale as int,
            ),
        ),
{
    let size = (CHUNK_SIZE as u32) * scale;
    let mut img = Canvas::new(size, size);
    blit_supersampled(
        &mut img,
        top.blocks.as_slice(),
        top.under.as_slice(),
        CHUNK_SIZE,
        CHUNK_SIZE,
        scale as usize,
        0,
        0,
        transparency,
        night,
    );
    img
}

/// The surface height of every column of a chunk, [`VOID_H`] for void.
pub open spec fn top_heights(top: ChunkTop) -> Seq<i32> {
    Seq::new(
        top.heights@.len(),
        |i: int|
            match top.heights@[i] {
                Some(h) => h,
                None => VOID_H,
            },
    )
}

/// The bloom color of every column of a chunk, black where no light is.
pub open spec fn top_lights(top: ChunkTop) -> Seq<[u8; 3]> {
    Seq::new(top.blocks@.len(), |i: int| light_of(opt_chars(top.blocks@[i])))
}

/// The bloom radius, in blocks, of the chosen mode.
pub open spec fn bloom_radius(night: bool) -> int {
    if night {
        NIGHT_BLOOM_RADIUS_BLOCKS as int
    } else {
        BLOOM_RADIUS_BLOCKS as int
    }
}

/// Pixel `(x, y)` of a chunk's supersampled view with optional ambient
/// occlusion and bloom (see [`chunk_image_ss_fx`]).
pub open spec fn chunk_fx_pixel(
    top: ChunkTop,
    s: int,
    transparency: bool,
    with_ao: bool,
    with_bloom: bool,
    night: bool,
    x: int,
    y: int,
) -> [u8; 3] {
    let n = CHUNK_SIZE as int;
    let dark = if with_ao {
        crate::light::ao_dark(top_heights(top), n, n, s, x, y) as u32
    } else {
        0u32
    };
    let glow = if with_bloom {
        [
            crate::light::bloom_channel(top_lights(top), n, n, s, bloom_radius(night), x, y, 0) as u8,
            crate::light::bloom_channel(top_lights(top), n, n, s, bloom_radius(night), x, y, 1) as u8,
            crate::light::bloom_channel(top_lights(top), n, n, s, bloom_radius(night), x, y, 2) as u8,
        ]
    } else {
        NO_BLOCK
    };
    lit_pixel(
        region_night_colors(top.blocks@, top.under@, transparency, night)[cell(n, x / s, y / s)],
        false,
        dark,
        s / 4,
        glow,
        night,
    )
}

fn chunk_height_grid(top: &ChunkTop) -> (out: Vec<i32>)
    requires
        top_sized(*top),
    ensures
        out@ == top_heights(*top),
{
    let mut out: Vec<i32> = Vec::new();
    let mut i: usize = 0;
    while i < COLUMNS
        invariant
            top_sized(*top),
            i <= COLUMNS,
            out@ == top_heights(*top).take(i as int),
        decreases COLUMNS - i,
    {
        let h = match top.heights[i] {
            Some(h) => h,
            None => VOID_H,
        };
        out.push(h);
        assert(out@ =~= top_heights(*top).take(i + 1));
        i = i + 1;
    }
    assert(out@ =~= top_heights(*top));
    out
}

fn chunk_light_grid(top: &ChunkTop) -> (out: Vec<[u8; 3]>)
    requires
        top_sized(*top),
    ensures
        out@ == top_lights(*top),
{
    let mut out: Vec<[u8; 3]> = Vec::new();
    let mut i: usize = 0;
    while i < COLUMNS
        invariant
            top_sized(*top),
            i <= COLUMNS,
            out@ == top_lights(*top).take(i as int),
        decreases COLUMNS - i,
    {
        out.push(column_light(&top.blocks[i]));
        assert(out@ =~= top_lights(*top).take(i + 1));
        i = i + 1;
    }
    assert(out@ =~= top_lights(*top));
    out
}

/// The top-down view of a chunk as solid `scale x scale` block squares (as
/// in [`chunk_image_ss`]), optionally with ambient occlusion and/or light
/// bloom layered on top.
///
/// `with_ao` darkens each block's edge facing a neighbour one block higher
/// (see [`ambient_occlusion`]); `with_bloom` adds a radial gradient of light
/// around light-emitting blocks (see [`bloom`]), wider in night mode. Both
/// are computed from the chunk's own columns, so the effects are correct
/// within the chunk but the outermost blocks cannot see neighbours that
/// belong to other chunks.
pub fn chunk_image_ss_fx(
    top: &ChunkTop,
    scale: u32,
    transparency: bool,
    with_ao: bool,
    with_bloom: bool,
    night: bool,
) -> (img: Canvas)
    requires
        top_sized(*top),
        scale >= 1,
        CHUNK_SIZE * scale <= u32::MAX,
        (CHUNK_SIZE * scale) * (CHUNK_SIZE * scale) <= usize::MAX,
    ensures
        img.width == CHUNK_SIZE * scale,
        img.height == CHUNK_SIZE * scale,
        img.wf(),
        forall|x: int, y: int|
            0 <= x < img.width && 0 <= y < img.height ==> #[trigger] img.pixels@[cell(img.width as int, x, y)]
                == chunk_fx_pixel(*top, scale as int, transparency, with_ao, with_bloom, night, x, y),
{
    let s = scale as usize;
    let size = (CHUNK_SIZE as u32) * scale;
    let pw = CHUNK_SIZE * s;
    let ao_field: Option<Vec<u32>> = if with_ao {
        let heights = chunk_height_grid(top);
        Some(ambient_occlusion(heights.as_slice(), CHUNK_SIZE, CHUNK_SIZE, s))
    } else {
        None
    };
    let bloom_field: Option<Vec<[u8; 3]>> = if with_bloom {
        let lights = chunk_light_grid(top);
        let radius = if night {
            NIGHT_BLOOM_RADIUS_BLOCKS
        } else {
            BLOOM_RADIUS_BLOCKS
        };
        assert(radius * s <= u32::MAX) by (nonlinear_arith)
            requires
                radius <= 4,
                16 * s <= u32::MAX,
        ;
        Some(bloom(lights.as_slice(), CHUNK_SIZE, CHUNK_SIZE, s, radius))
    } else {
        None
    };
    let mut img = Canvas::new(size, size);
    let ao_ref: Option<&[u32]> = match &ao_field {
        Some(v) => Some(v.as_slice()),
        None => None,
    };
    let bloom_ref: Option<&[[u8; 3]]> = match &bloom_field {
        Some(v) => Some(v.as_slice()),
        None => None,
    };
    blit_supersampled_fx(
        &mut img,
        top.blocks.as_slice(),
        top.under.as_slice(),
        CHUNK_SIZE,
        CHUNK_SIZE,
        s,
        ao_ref,
        bloom_ref,
        0,
        0,
        transparency,
        night,
    );
    proof {
        let n = CHUNK_SIZE as int;
        assert forall|x: int, y: int| 0 <= x < img.width && 0 <= y < img.height implies #[trigger] img.pixels@[cell(
            img.width as int,
            x,
            y,
        )] == chunk_fx_pixel(*top, scale as int, transparency, with_ao, with_bloom, night, x, y) by {
            let pi = cell(pw as int, x, y);
            if with_ao {
                let v = ao_field->0;
                assert(v@[pi] == crate::light::ao_dark(top_heights(*top), n, n, s as int, x, y));
            }
            if with_bloom {
                let v = bloom_field->0;
                assert(v@[pi][0] == crate::light::bloom_channel(top_lights(*top), n, n, s as int, bloom_radius(night), x, y, 0));
                assert(v@[pi][1] == crate::light::bloom_channel(top_lights(*top), n, n, s as int, bloom_radius(night), x, y, 1));
                assert(v@[pi][2] == crate::light::bloom_channel(top_lights(*top), n, n, s as int, bloom_radius(night), x, y, 2));
                assert(v@[pi] =~= [
                    crate::light::bloom_channel(top_lights(*top), n, n, s as int, bloom_radius(night), x, y, 0) as u8,
                    crate::light::bloom_channel(top_lights(*top), n, n, s as int, bloom_radius(night), x, y, 1) as u8,
                    crate::light::bloom_channel(top_lights(*top), n, n, s as int, bloom_radius(night), x, y, 2) as u8,
                ]);
            }
        }
    }
    img
}

/// `old` with the `cw x ch` rectangle at `(ox, oz)` of a `w`-wide canvas
/// painted by `f` (given rectangle-local coordinates).
pub open spec fn paint_seq(
    old: Seq<[u8; 3]>,
    w: int,
    ox: int,
    oz: int,
    cw: int,
    ch: int,
    f: spec_fn(int, int) -> [u8; 3],
) -> Seq<[u8; 3]> {
    Seq::new(
        old.len(),
        |i: int|
            {
                let x = i % w;
                let y = i / w;
                if ox <= x < ox + cw && oz <= y < oz + ch {
                    f(x - ox, y - oz)
                } else {
                    old[i]
                }
            },
    )
}

/// A painted canvas is exactly the painting of the old one.
proof fn lemma_painted_is_paint_seq(
    old: Seq<[u8; 3]>,
    new: Seq<[u8; 3]>,
    w: int,
    h: int,
    ox: int,
    oz: int,
    cw: int,
    ch: int,
    f: spec_fn(int, int) -> [u8; 3],
)
    requires
        w > 0,
        h >= 0,
        old.len() == w * h,
        painted(old, new, w, h, ox, oz, cw, ch, f),
    ensures
        new == paint_seq(old, w, ox, oz, cw, ch, f),
{
    assert forall|i: int| 0 <= i < old.len() implies new[i] == paint_seq(old, w, ox, oz, cw, ch, f)[i] by {
        let x = i % w;
        let y = i / w;
        vstd::arithmetic::div_mod::lemma_fundamental_div_mod(i, w);
        vstd::arithmetic::div_mod::lemma_mod_pos_bound(i, w);
        vstd::arithmetic::div_mod::lemma_div_pos_is_pos(i, w);
        assert(w * y == y * w) by (nonlinear_arith);
        assert(i == cell(w, x, y));
        if y >= h {
            assert(y * w >= h * w) by (nonlinear_arith)
                requires
                    y >= h,
                    w > 0,
            ;
            assert(h * w == w * h) by (nonlinear_arith);
        }
        assert(0 <= y < h);
    }
    assert(new =~= paint_seq(old, w, ox, oz, cw, ch, f));
}

/// The display colors of chunk `(i, j)` of a block grid, darkened where the
/// shadow mask is set (night shadows in night mode).
pub open spec fn chunk_shaded_colors(
    colors: Seq<[u8; 3]>,
    shadow: Seq<bool>,
    grid_w: int,
    i: int,
    j: int,
    night: bool,
) -> Seq<[u8; 3]> {
    Seq::new(
        COLUMNS as nat,
        |c: int|
            {
                let gi = cell(grid_w, 16 * i + c % 16, 16 * j + c / 16);
                if shadow[gi] {
                    shaded_for(colors[gi], night)
                } else {
                    colors[gi]
                }
            },
    )
}

/// The shaded map after the chunks of rows `0 .. row` and the first `col`
/// chunks of row `row` have been drawn, each over the previous ones: chunk
/// `(i, j)` paints its downsampled 16x16 shaded colors at pixel
/// `(16 * i / scale, 16 * j / scale)`.
pub open spec fn shaded_map_after(
    old: Seq<[u8; 3]>,
    w: int,
    colors: Seq<[u8; 3]>,
    shadow: Seq<bool>,
    grid_w: int,
    chunks_w: int,
    scale: int,
    night: bool,
    row: int,
    col: int,
) -> Seq<[u8; 3]>
    decreases row, col,
{
    if row <= 0 && col <= 0 {
        old
    } else if col <= 0 {
        shaded_map_after(old, w, colors, shadow, grid_w, chunks_w, scale, night, row - 1, chunks_w)
    } else {
        paint_seq(
            shaded_map_after(old, w, colors, shadow, grid_w, chunks_w, scale, night, row, col - 1),
            w,
            (16 * (col - 1)) / scale,
            (16 * row) / scale,
            cells_for(16, scale),
            cells_for(16, scale),
            scaled_painter(chunk_shaded_colors(colors, shadow, grid_w, col - 1, row, night), 16, 16, scale, false),
        )
    }
}

/// Chunk `k` along one axis covers pixel `v` of a map downsampled by
/// `scale`: its cells start at `16 * k / scale`.
pub open spec fn covers(k: int, v: int, scale: int) -> bool {
    (16 * k) / scale <= v < (16 * k) / scale + cells_for(16, scale)
}

/// The last of the first `n` chunks along one axis that covers pixel `v`.
pub open spec fn last_cover(v: int, scale: int, n: int) -> Option<int>
    decreases n,
{
    if n <= 0 {
        None
    } else if covers(n - 1, v, scale) {
        Some(n - 1)
    } else {
        last_cover(v, scale, n - 1)
    }
}

/// The color chunk `(i, j)` of the shaded map gives pixel `(x, y)`.
pub open spec fn shaded_chunk_pixel(
    colors: Seq<[u8; 3]>,
    shadow: Seq<bool>,
    grid_w: int,
    scale: int,
    night: bool,
    i: int,
    j: int,
    x: int,
    y: int,
) -> [u8; 3] {
    (scaled_painter(chunk_shaded_colors(colors, shadow, grid_w, i, j, night), 16, 16, scale, false))(
        x - (16 * i) / scale,
        y - (16 * j) / scale,
    )
}

/// Pixel `p` of the shaded map: the chunks are drawn row by row, so the
/// chunk that shows at a pixel is the last row of chunks covering it and, in
/// that row, the last chunk covering it; a pixel no chunk covers keeps its
/// old color.
pub open spec fn shaded_pixel(
    old: Seq<[u8; 3]>,
    w: int,
    colors: Seq<[u8; 3]>,
    shadow: Seq<bool>,
    grid_w: int,
    chunks_w: int,
    chunks_h: int,
    scale: int,
    night: bool,
    p: int,
) -> [u8; 3] {
    let x = p % w;
    let y = p / w;
    match (last_cover(y, scale, chunks_h), last_cover(x, scale, chunks_w)) {
        (Some(j), Some(i)) => shaded_chunk_pixel(colors, shadow, grid_w, scale, night, i, j, x, y),
        _ => old[p],
    }
}

/// Pixel `p` of the shaded map after rows `0 .. row` and the first `col`
/// chunks of row `row` are drawn.
spec fn shaded_prefix_pixel(
    old: Seq<[u8; 3]>,
    w: int,
    colors: Seq<[u8; 3]>,
    shadow: Seq<bool>,
    grid_w: int,
    chunks_w: int,
    scale: int,
    night: bool,
    row: int,
    col: int,
    p: int,
) -> [u8; 3] {
    let x = p % w;
    let y = p / w;
    if covers(row, y, scale) && last_cover(x, scale, col) is Some {
        shaded_chunk_pixel(colors, shadow, grid_w, scale, night, last_cover(x, scale, col)->0, row, x, y)
    } else {
        match (last_cover(y, scale, row), last_cover(x, scale, chunks_w)) {
            (Some(j), Some(i)) => shaded_chunk_pixel(colors, shadow, grid_w, scale, night, i, j, x, y),
            _ => old[p],
        }
    }
}

/// The shaded map drawn so far, pixel by pixel (see [`shaded_prefix_pixel`]).
proof fn lemma_shaded_prefix(
    old: Seq<[u8; 3]>,
    w: int,
    colors: Seq<[u8; 3]>,
    shadow: Seq<bool>,
    grid_w: int,
    chunks_w: int,
    scale: int,
    night: bool,
    row: int,
    col: int,
    p: int,
)
    requires
        w > 0,
        0 <= p < old.len(),
        0 <= row,
        0 <= col <= chunks_w,
    ensures
        shaded_map_after(old, w, colors, shadow, grid_w, chunks_w, scale, night, row, col).len() == old.len(),
        shaded_map_after(old, w, colors, shadow, grid_w, chunks_w, scale, night, row, col)[p]
            == shaded_prefix_pixel(old, w, colors, shadow, grid_w, chunks_w, scale, night, row, col, p),
    decreases row, col,
{
    if row <= 0 && col <= 0 {
    } else if col <= 0 {
        lemma_shaded_prefix(old, w, colors, shadow, grid_w, chunks_w, scale, night, row - 1, chunks_w, p);
    } else {
        lemma_shaded_prefix(old, w, colors, shadow, grid_w, chunks_w, scale, night, row, col - 1, p);
    }
}

/// The shaded map pixel by pixel: after all `chunks_w x chunks_h` chunks are
/// drawn, pixel `p` shows the last chunk covering it (see [`shaded_pixel`]).
pub proof fn lemma_shaded_map_pixel(
    old: Seq<[u8; 3]>,
    w: int,
    colors: Seq<[u8; 3]>,
    shadow: Seq<bool>,
    grid_w: int,
    chunks_w: int,
    chunks_h: int,
    scale: int,
    night: bool,
    p: int,
)
    requires
        w > 0,
        0 <= p < old.len(),
        0 <= chunks_w,
        0 <= chunks_h,
    ensures
        shaded_map_after(old, w, colors, shadow, grid_w, chunks_w, scale, night, chunks_h, 0).len() == old.len(),
        shaded_map_after(old, w, colors, shadow, grid_w, chunks_w, scale, night, chunks_h, 0)[p]
            == shaded_pixel(old, w, colors, shadow, grid_w, chunks_w, chunks_h, scale, night, p),
{
    lemma_shaded_prefix(old, w, colors, shadow, grid_w, chunks_w, scale, night, chunks_h, 0, p);
}

/// The number of chunks from `min` to `max` inclusive (none when `max < min`).
pub open spec fn chunk_span(min: i32, max: i32) -> int {
    if max >= min {
        max - min + 1
    } else {
        0
    }
}

/// A chunk's cells end no later than the cells of the whole span do.
proof fn lemma_chunk_cells_fit(i: int, n: int, s: int)
    requires
        0 <= i < n,
        s >= 1,
    ensures
        (16 * i) / s + cells_for(16, s) <= cells_for(16 * n, s),
        0 <= (16 * i) / s,
{
    let a = 16 * i;
    let q = a / s;
    let r = a % s;
    vstd::arithmetic::div_mod::lemma_fundamental_div_mod(a, s);
    vstd::arithmetic::div_mod::lemma_mod_pos_bound(a, s);
    vstd::arithmetic::div_mod::lemma_div_pos_is_pos(a, s);
    vstd::arithmetic::div_mod::lemma_div_is_ordered(16 + s - 1, 16 + s - 1 + r, s);
    vstd::arithmetic::div_mod::lemma_hoist_over_denominator(16 + s - 1 + r, q, s as nat);
    assert(16 + s - 1 + r + q * s == a + 16 + s - 1) by (nonlinear_arith)
        requires
            a == s * q + r,
    ;
    vstd::arithmetic::div_mod::lemma_div_is_ordered(a + 16 + s - 1, 16 * n + s - 1, s);
}

/// Final shadow pass at native or downsampled resolution: fill `img` from the
/// block-resolution `colors` and `shadow` grids, darkening shadowed columns
/// (see [`shade_for`]).
///
/// Every chunk of the bounding box `[min_chunk_x, max_chunk_x] x
/// [min_chunk_z, max_chunk_z]` is blitted, row by row, at the same pixel
/// offset the non-shadow single-image pass uses (its block offset divided by
/// `scale`), so the two modes share an identical layout. Chunks that do not
/// exist are all void in the grids and therefore blit as black.
pub fn render_shaded_map(
    img: &mut Canvas,
    colors: &[[u8; 3]],
    shadow: &[bool],
    grid_w: usize,
    min_chunk_x: i32,
    min_chunk_z: i32,
    max_chunk_x: i32,
    max_chunk_z: i32,
    scale: u32,
    night: bool,
)
    requires
        old(img).wf(),
        old(img).width > 0,
        1 <= scale <= i32::MAX,
        shadow@.len() == colors@.len(),
        16 * chunk_span(min_chunk_x, max_chunk_x) <= i32::MAX,
        16 * chunk_span(min_chunk_z, max_chunk_z) <= i32::MAX,
        16 * chunk_span(min_chunk_x, max_chunk_x) <= grid_w,
        grid_w * (16 * chunk_span(min_chunk_z, max_chunk_z)) <= colors@.len(),
        cells_for(16 * chunk_span(min_chunk_x, max_chunk_x), scale as int) <= old(img).width,
        cells_for(16 * chunk_span(min_chunk_z, max_chunk_z), scale as int) <= old(img).height,
    ensures
        final(img).width == old(img).width,
        final(img).height == old(img).height,
        final(img).pixels@ == shaded_map_after(
            old(img).pixels@,
            old(img).width as int,
            colors@,
            shadow@,
            grid_w as int,
            chunk_span(min_chunk_x, max_chunk_x),
            scale as int,
            night,
            chunk_span(min_chunk_z, max_chunk_z),
            0,
        ),
        final(img).pixels@.len() == old(img).pixels@.len(),
        forall|p: int|
            0 <= p < old(img).pixels@.len() ==> #[trigger] final(img).pixels@[p] == shaded_pixel(
                old(img).pixels@,
                old(img).width as int,
                colors@,
                shadow@,
                grid_w as int,
                chunk_span(min_chunk_x, max_chunk_x),
                chunk_span(min_chunk_z, max_chunk_z),
                scale as int,
                night,
                p,
            ),
{
    proof {
        assert forall|p: int| 0 <= p < old(img).pixels@.len() implies shaded_map_after(
            old(img).pixels@,
            old(img).width as int,
            colors@,
            shadow@,
            grid_w as int,
            chunk_span(min_chunk_x, max_chunk_x),
            scale as int,
            night,
            chunk_span(min_chunk_z, max_chunk_z),
            0,
        )[p] == shaded_pixel(
            old(img).pixels@,
            old(img).width as int,
            colors@,
            shadow@,
            grid_w as int,
            chunk_span(min_chunk_x, max_chunk_x),
            chunk_span(min_chunk_z, max_chunk_z),
            scale as int,
            night,
            p,
        ) && shaded_map_after(
            old(img).pixels@,
            old(img).width as int,
            colors@,
            shadow@,
            grid_w as int,
            chunk_span(min_chunk_x, max_chunk_x),
            scale as int,
            night,
            chunk_span(min_chunk_z, max_chunk_z),
            0,
        ).len() == old(img).pixels@.len() by {
            lemma_shaded_map_pixel(
                old(img).pixels@,
                old(img).width as int,
                colors@,
                shadow@,
                grid_w as int,
                chunk_span(min_chunk_x, max_chunk_x),
                chunk_span(min_chunk_z, max_chunk_z),
                scale as int,
                night,
                p,
            );
        }
    }
    let ghost old_px = img.pixels@;
    let ghost w = img.width as int;
    let ghost h = img.height as int;
    let ghost f_after = |row: int, col: int|
        shaded_map_after(
            old_px,
            w,
            colors@,
            shadow@,
            grid_w as int,
            chunk_span(min_chunk_x, max_chunk_x),
            scale as int,
            night,
            row,
            col,
        );
    let ncx: usize = if max_chunk_x >= min_chunk_x {
        (max_chunk_x as i64 - min_chunk_x as i64 + 1) as usize
    } else {
        0
    };
    let ncz: usize = if max_chunk_z >= min_chunk_z {
        (max_chunk_z as i64 - min_chunk_z as i64 + 1) as usize
    } else {
        0
    };
    let s = scale as usize;
    let mut j: usize = 0;
    while j < ncz
        invariant
            img.wf(),
            img.width == w,
            img.height == h,
            w > 0,
            old_px.len() == w * h,
            ncx == chunk_span(min_chunk_x, max_chunk_x),
            ncz == chunk_span(min_chunk_z, max_chunk_z),
            s == scale,
            1 <= scale <= i32::MAX,
            shadow@.len() == colors@.len(),
            16 * ncx <= grid_w,
            16 * ncz <= i32::MAX,
            16 * ncx <= i32::MAX,
            grid_w * (16 * ncz) <= colors@.len(),
            cells_for(16 * ncx, scale as int) <= w,
            cells_for(16 * ncz, scale as int) <= h,
            j <= ncz,
            img.pixels@ == shaded_map_after(old_px, w, colors@, shadow@, grid_w as int, ncx as int, scale as int, night, j as int, 0),
        decreases ncz - j,
    {
        let mut i: usize = 0;
        while i < ncx
            invariant
                img.wf(),
                img.width == w,
                img.height == h,
                w > 0,
                old_px.len() == w * h,
                ncx == chunk_span(min_chunk_x, max_chunk_x),
                ncz == chunk_span(min_chunk_z, max_chunk_z),
                s == scale,
                1 <= scale <= i32::MAX,
                shadow@.len() == colors@.len(),
                16 * ncx <= grid_w,
                16 * ncz <= i32::MAX,
                16 * ncx <= i32::MAX,
                grid_w * (16 * ncz) <= colors@.len(),
                cells_for(16 * ncx, scale as int) <= w,
                cells_for(16 * ncz, scale as int) <= h,
                j < ncz,
                i <= ncx,
                img.pixels@ == shaded_map_after(old_px, w, colors@, shadow@, grid_w as int, ncx as int, scale as int, night, j as int, i as int),
            decreases ncx - i,
        {
            let block_x0 = 16 * i;
            let block_z0 = 16 * j;
            let mut local: Vec<[u8; 3]> = Vec::new();
            let mut c: usize = 0;
            while c < COLUMNS
                invariant
                    c <= COLUMNS,
                    block_x0 == 16 * i,
                    block_z0 == 16 * j,
                    i < ncx,
                    j < ncz,
                    16 * ncx <= grid_w,
                    shadow@.len() == colors@.len(),
                    grid_w * (16 * ncz) <= colors@.len(),
                    local@ == chunk_shaded_colors(colors@, shadow@, grid_w as int, i as int, j as int, night).take(c as int),
                decreases COLUMNS - c,
            {
                let gx = block_x0 + c % 16;
                let gz = block_z0 + c / 16;
                assert(gz * grid_w + gx < colors@.len()) by (nonlinear_arith)
                    requires
                        gz < 16 * ncz,
                        gx < grid_w,
                        grid_w * (16 * ncz) <= colors@.len(),
                {
                    assert((gz + 1) * grid_w <= (16 * ncz) * grid_w);
                };
                let n = colors.len();
                assert(gz * grid_w + gx < n);
                let gi = gz * grid_w + gx;
                let col = colors[gi];
                let v = if shadow[gi] {
                    shade_for(col, night)
                } else {
                    col
                };
                local.push(v);
                assert(local@ =~= chunk_shaded_colors(colors@, shadow@, grid_w as int, i as int, j as int, night).take(c + 1));
                c = c + 1;
            }
            assert(local@ =~= chunk_shaded_colors(colors@, shadow@, grid_w as int, i as int, j as int, night));
            let offset_x = (block_x0 / s) as u32;
            let offset_z = (block_z0 / s) as u32;
            proof {
                lemma_chunk_cells_fit(i as int, ncx as int, s as int);
                lemma_chunk_cells_fit(j as int, ncz as int, s as int);
            }
            let ghost cur = img.pixels@;
            blit_scaled_shaded(img, local.as_slice(), CHUNK_SIZE, CHUNK_SIZE, scale, offset_x, offset_z);
            proof {
                lemma_painted_is_paint_seq(
                    cur,
                    img.pixels@,
                    w,
                    h,
                    offset_x as int,
                    offset_z as int,
                    cells_for(16, s as int),
                    cells_for(16, s as int),
                    scaled_painter(local@, 16, 16, s as int, false),
                );
            }
            i = i + 1;
        }
        assert(shaded_map_after(old_px, w, colors@, shadow@, grid_w as int, ncx as int, scale as int, night, j + 1, 0)
            == shaded_map_after(old_px, w, colors@, shadow@, grid_w as int, ncx as int, scale as int, night, j as int, ncx as int));
        j = j + 1;
    }
}

} // verus!
