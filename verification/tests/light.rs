use worldraw::args::HYPER_SAMPLE;
use worldraw::chunk::VOID_H;
use worldraw::light::{
    ambient_occlusion, bloom, compute_shadows, supersampled_heights, BLOOM_RADIUS_BLOCKS,
    NIGHT_BLOOM_RADIUS_BLOCKS,
};

#[test]
fn flat_terrain_casts_no_shadow() {
    let grid_w = 8;
    let grid_h = 8;
    let heights = vec![5i32; grid_w * grid_h];
    let shadow = compute_shadows(&heights, grid_w, grid_h);
    assert!(shadow.iter().all(|&s| !s), "flat terrain has no shadow");
}

#[test]
fn pillar_casts_a_diagonal_shadow_toward_bottom_left() {
    let grid_w = 8;
    let grid_h = 8;
    let mut heights = vec![0i32; grid_w * grid_h];
    heights[1 * grid_w + 4] = 3;

    let shadow = compute_shadows(&heights, grid_w, grid_h);
    let idx = |x: usize, z: usize| z * grid_w + x;

    assert!(shadow[idx(3, 2)], "first shadow cell");
    assert!(shadow[idx(2, 3)], "second shadow cell");
    assert!(shadow[idx(1, 4)], "third shadow cell");
    assert!(!shadow[idx(0, 5)], "beyond the shadow length");
    assert!(!shadow[idx(4, 1)], "pillar top is lit");
    assert!(!shadow[idx(4, 2)], "south of the pillar is lit");
    assert!(!shadow[idx(5, 1)], "right of the pillar is lit");
    assert!(!shadow[idx(0, 0)]);
    assert!(!shadow[idx(7, 7)]);
}

#[test]
fn supersampled_heights_scales_real_columns_and_keeps_void() {
    let mut heights = vec![0i32; 4];
    heights[1] = 3;
    let s = 5usize;

    let out = supersampled_heights(&heights, 2, 2, s);
    assert_eq!(out.len(), (2 * s) * (2 * s));
    assert_eq!(out[(0 * s) * (2 * s) + 0 * s], 0);
    assert_eq!(out[(0 * s) * (2 * s) + 1 * s], 15);

    let void = vec![VOID_H, 0, 0, 0];
    let void_out = supersampled_heights(&void, 2, 2, s);
    assert_eq!(void_out[0], VOID_H);
}

fn block_straddles_edge(grid_w: usize, grid_h: usize, s: usize) -> bool {
    let mut heights = vec![0i32; grid_w * grid_h];
    heights[1 * grid_w + 4] = 3;

    let pixel_heights = supersampled_heights(&heights, grid_w, grid_h, s);
    let pw = grid_w * s;
    let ph = grid_h * s;
    let shadow = compute_shadows(&pixel_heights, pw, ph);

    let mut found_partial = false;
    for z in 0..grid_h {
        for x in 0..grid_w {
            let mut lit = 0;
            let mut dark = 0;
            for dz in 0..s {
                for dx in 0..s {
                    let pi = (z * s + dz) * pw + (x * s + dx);
                    if shadow[pi] {
                        dark += 1;
                    } else {
                        lit += 1;
                    }
                }
            }
            if lit > 0 && dark > 0 {
                found_partial = true;
            }
        }
    }
    found_partial
}

#[test]
fn supersample_shadow_is_smooth_at_pixel_resolution() {
    assert!(
        block_straddles_edge(8, 8, 5),
        "a block should straddle the smooth shadow edge at pixel resolution"
    );
}

#[test]
fn hypersample_shadow_is_smooth_at_pixel_resolution() {
    assert!(
        block_straddles_edge(8, 8, HYPER_SAMPLE as usize),
        "a block should straddle the smooth shadow edge at pixel resolution"
    );
}

#[test]
fn ambient_occlusion_fades_from_edge_to_centre_on_the_lower_block() {
    let grid_w = 2;
    let grid_h = 1;
    let heights = vec![0i32, 1];
    let s = 16usize;
    let band = (s / 4) as f32;
    let pw = grid_w * s;
    let ao = ambient_occlusion(&heights, grid_w, grid_h, s);

    let edge = ao[0 * pw + (s - 1)] as f32 / band;
    assert!(edge > 0.99, "edge should be near-black, got {edge}");

    let inner = ao[0 * pw + (s - 1 - 3)] as f32 / band;
    assert!(inner < edge, "gradient should fade inward");
    assert!((inner - 0.25).abs() < 1e-6, "expected 0.25, got {inner}");

    let beyond = ao[0 * pw + (s - 1 - 4)];
    assert_eq!(beyond, 0);

    assert_eq!(ao[0 * pw + 0], 0);

    for dx in 0..s {
        assert_eq!(ao[0 * pw + s + dx], 0);
    }
}

#[test]
fn ambient_occlusion_requires_exactly_one_block_of_difference() {
    let grid_w = 2;
    let grid_h = 1;
    let s = 16usize;
    let pw = grid_w * s;
    let band = (s / 4) as f32;

    let flat = vec![5i32, 5];
    assert!(ambient_occlusion(&flat, grid_w, grid_h, s).iter().all(|v| *v == 0));

    let steep = vec![5i32, 7];
    assert!(ambient_occlusion(&steep, grid_w, grid_h, s).iter().all(|v| *v == 0));

    let one = vec![5i32, 6];
    let ao = ambient_occlusion(&one, grid_w, grid_h, s);
    assert!(ao[0 * pw + (s - 1)] as f32 / band > 0.99, "1-block step should produce AO");
}

#[test]
fn ambient_occlusion_ignores_void_columns() {
    let grid_w = 2;
    let grid_h = 1;
    let s = 16usize;
    let heights = vec![5i32, VOID_H];
    let ao = ambient_occlusion(&heights, grid_w, grid_h, s);
    assert!(ao.iter().all(|v| *v == 0));
}

#[test]
fn ambient_occlusion_needs_a_band_of_at_least_one_pixel() {
    let ao = ambient_occlusion(&[0, 1], 2, 1, 3);
    assert_eq!(ao.len(), 6 * 3);
    assert!(ao.iter().all(|v| *v == 0));
}

#[test]
fn ambient_occlusion_takes_the_strongest_edge_in_a_corner() {
    // Lower block (1, 1) with higher neighbours above and to the right.
    let grid_w = 3;
    let grid_h = 3;
    let s = 8usize; // band 2
    let mut heights = vec![0i32; 9];
    heights[0 * 3 + 1] = 1;
    heights[1 * 3 + 2] = 1;
    let ao = ambient_occlusion(&heights, grid_w, grid_h, s);
    let pw = grid_w * s;
    // Top-right corner pixel of the block: both edges at distance 0.
    assert_eq!(ao[(1 * s) * pw + (1 * s + s - 1)], 2);
    // One pixel in from the top edge, at the right edge: the right edge wins.
    assert_eq!(ao[(1 * s + 1) * pw + (1 * s + s - 1)], 2);
    // One pixel in from both: 2 - 1 = 1.
    assert_eq!(ao[(1 * s + 1) * pw + (1 * s + s - 2)], 1);
    // The left and bottom edges face no higher block.
    assert_eq!(ao[(1 * s + s - 1) * pw + (1 * s)], 0);
}

#[test]
fn bloom_fades_from_light_source_outward() {
    let grid_w = 6;
    let grid_h = 1;
    let s = 4usize;
    let mut lights = vec![[0u8, 0, 0]; grid_w * grid_h];
    lights[2] = [255, 200, 90];

    let pw = grid_w * s;
    let field = bloom(&lights, grid_w, grid_h, s, BLOOM_RADIUS_BLOCKS);

    let cx = 2 * s + s / 2;
    let cz = s / 2;
    let center = field[cz * pw + cx];
    assert_eq!(center, [255, 200, 90], "source centre should be at full strength");

    let right = field[cz * pw + cx + 1];
    let left = field[cz * pw + cx - 1];
    assert_eq!(left, right, "falloff should be symmetric");
    assert!(right[0] < center[0] && right[1] < center[1], "bloom should fade outward");
    let further = field[cz * pw + cx + 2];
    assert!(further[0] <= right[0], "further out should be dimmer still");

    assert_eq!(field[cz * pw + 0], [0, 0, 0], "far corner should be unlit");
    assert_eq!(field[cz * pw + 1], [0, 0, 0], "far corner (other side) should be unlit");

    for v in &field {
        assert!(v[1] <= 200 && v[2] <= 90);
    }
}

#[test]
fn bloom_has_an_exact_quadratic_falloff() {
    let mut lights = vec![[0u8, 0, 0]; 6];
    lights[2] = [255, 200, 90];
    let s = 4usize;
    let pw = 6 * s;
    let field = bloom(&lights, 6, 1, s, BLOOM_RADIUS_BLOCKS);
    // Radius 8 px, r2 = 64; one pixel right of the centre d2 = 1.
    assert_eq!(field[2 * pw + 11], [251, 196, 88]);
    // Two pixels right: d2 = 4.
    assert_eq!(field[2 * pw + 12], [239, 187, 84]);
    // Exactly at the radius the glow has faded out.
    assert_eq!(field[2 * pw + 18], [0, 0, 0]);
}

#[test]
fn overlapping_blooms_add_and_clamp() {
    let lights = vec![[200u8, 10, 0], [200u8, 10, 0]];
    let s = 2usize;
    let field = bloom(&lights, 2, 1, s, BLOOM_RADIUS_BLOCKS);
    let one = bloom(&[[200u8, 10, 0], [0, 0, 0]], 2, 1, s, BLOOM_RADIUS_BLOCKS);
    let other = bloom(&[[0u8, 0, 0], [200u8, 10, 0]], 2, 1, s, BLOOM_RADIUS_BLOCKS);
    for i in 0..field.len() {
        for c in 0..3 {
            let sum = one[i][c] as u32 + other[i][c] as u32;
            assert_eq!(field[i][c] as u32, sum.min(255));
        }
    }
    assert_eq!(field[1 * 4 + 1][0], 255);
}

#[test]
fn night_bloom_reaches_further() {
    let mut lights = vec![[0u8, 0, 0]; 12];
    lights[6] = [255, 200, 90];
    let s = 4usize;
    let pw = 12 * s;
    let day = bloom(&lights, 12, 1, s, BLOOM_RADIUS_BLOCKS);
    let night = bloom(&lights, 12, 1, s, NIGHT_BLOOM_RADIUS_BLOCKS);
    let cx = 6 * s + s / 2;
    // Three blocks away the day glow is gone but the night glow is not.
    assert_eq!(day[2 * pw + cx + 12], [0, 0, 0]);
    assert_ne!(night[2 * pw + cx + 12], [0, 0, 0]);
    // A zero radius adds nothing.
    assert!(bloom(&lights, 12, 1, s, 0).iter().all(|v| *v == [0, 0, 0]));
}

#[test]
fn supersampled_pillar_shadow_keeps_its_length_in_blocks() {
    let grid_w = 8;
    let grid_h = 8;
    let s = 5usize;
    let mut heights = vec![0i32; grid_w * grid_h];
    heights[1 * grid_w + 4] = 3;
    let pixels = supersampled_heights(&heights, grid_w, grid_h, s);
    let pw = grid_w * s;
    let shadow = compute_shadows(&pixels, pw, grid_h * s);
    let at = |x: usize, z: usize| shadow[z * pw + x];
    // The pillar occupies pixels x 20..25, z 5..10.
    assert!(at(19, 10), "one pixel down-left of the pillar's corner");
    assert!(at(5, 24), "fifteen pixels (three blocks) away");
    assert!(!at(4, 25), "sixteen pixels away");
    assert!(!at(22, 7), "the pillar itself is lit");
}

#[test]
fn bloom_adds_nothing_at_its_radius() {
    let grid_w = 5;
    let grid_h = 1;
    let s = 5usize;
    let mut lights = vec![[0u8, 0, 0]; grid_w * grid_h];
    lights[0] = [200, 100, 50];
    let glow = bloom(&lights, grid_w, grid_h, s, BLOOM_RADIUS_BLOCKS);
    let pw = grid_w * s;
    let row = 2 * pw;
    // The source's centre pixel gets the full color.
    assert_eq!(glow[row + 2], [200, 100, 50]);
    // Ten pixels (two blocks) from the centre is exactly the radius.
    assert_eq!(glow[row + 12], [0, 0, 0]);
    assert_eq!(glow[row + pw - 1], [0, 0, 0]);
    // In between, the glow fades: five pixels out keeps three quarters.
    assert_eq!(glow[row + 7], [150, 75, 37]);
}

#[test]
fn a_cluster_of_lights_glows_at_least_as_bright_as_one() {
    let grid_w = 4;
    let grid_h = 3;
    let s = 5usize;
    let mut one = vec![[0u8, 0, 0]; grid_w * grid_h];
    one[1 * grid_w + 1] = [120, 80, 40];
    let mut many = one.clone();
    many[1 * grid_w + 2] = [120, 80, 40];
    many[0] = [10, 200, 10];
    let a = bloom(&one, grid_w, grid_h, s, BLOOM_RADIUS_BLOCKS);
    let b = bloom(&many, grid_w, grid_h, s, BLOOM_RADIUS_BLOCKS);
    for (pa, pb) in a.iter().zip(b.iter()) {
        for k in 0..3 {
            assert!(pa[k] <= pb[k]);
        }
    }
    // Between the two equal lights the glows add up.
    let pw = grid_w * s;
    let mid = 7 * pw + 10;
    assert!(b[mid][0] > a[mid][0]);
}

#[test]
fn bloom_stays_within_its_radius_and_separate_lights_add_up() {
    let grid_w = 6;
    let grid_h = 1;
    let s = 5usize;
    let mut a = vec![[0u8, 0, 0]; grid_w * grid_h];
    a[0] = [200, 150, 100];
    let mut b = vec![[0u8, 0, 0]; grid_w * grid_h];
    b[2] = [100, 200, 250];
    let mut u = a.clone();
    u[2] = b[2];
    let fa = bloom(&a, grid_w, grid_h, s, BLOOM_RADIUS_BLOCKS);
    let fb = bloom(&b, grid_w, grid_h, s, BLOOM_RADIUS_BLOCKS);
    let fu = bloom(&u, grid_w, grid_h, s, BLOOM_RADIUS_BLOCKS);
    for p in 0..fu.len() {
        for k in 0..3 {
            assert_eq!(fu[p][k], fa[p][k].saturating_add(fb[p][k]));
        }
    }
    // Light `a` is centred at pixel (2, 2); its radius is ten pixels.
    let pw = grid_w * s;
    for pz in 0..s {
        for px in 0..pw {
            let (dx, dz) = (px as i64 - 2, pz as i64 - 2);
            if dx * dx + dz * dz > 100 {
                assert_eq!(fa[pz * pw + px], [0, 0, 0]);
            }
        }
    }
    assert_ne!(fa[2 * pw + 11], [0, 0, 0]);
}

#[test]
fn shadows_take_any_height() {
    let grid_w = 3;
    let grid_h = 3;
    let mut heights = vec![i32::MIN; grid_w * grid_h];
    heights[0 * grid_w + 2] = i32::MAX;
    heights[1 * grid_w + 1] = 0;
    let shadow = compute_shadows(&heights, grid_w, grid_h);
    // The tall column up-right of (1, 1) shades it; the lowest columns are
    // shaded by the void edge reach as well as by the tall column.
    assert!(shadow[1 * grid_w + 1]);
    assert!(!shadow[0 * grid_w + 2]);
    assert!(shadow[2 * grid_w + 0]);
}
