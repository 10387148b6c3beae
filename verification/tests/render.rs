use worldraw::args::{HYPER_SAMPLE, SUPER_SAMPLE};
use worldraw::chunk::{ChunkTop, COLUMNS};
use worldraw::color::{night_darken, night_shade, shade};
use worldraw::light::{ambient_occlusion, bloom, compute_shadows, supersampled_heights, BLOOM_RADIUS_BLOCKS};
use worldraw::palette::block_color;
use worldraw::render::{
    chunk_image, chunk_image_ss, chunk_image_ss_fx, mode_of, most_common_color,
    most_common_shaded_color, render_into_big, render_shaded_map, render_ss, Canvas,
};

fn top_with(blocks: Vec<Option<String>>, heights: Vec<Option<i32>>) -> ChunkTop {
    ChunkTop { blocks, heights, under: vec![None; COLUMNS] }
}

fn grass_corner() -> ChunkTop {
    let blocks = (0..COLUMNS)
        .map(|i| if i == 0 { Some("minecraft:grass_block".to_string()) } else { None })
        .collect();
    top_with(blocks, vec![None; COLUMNS])
}

#[test]
fn renders_a_16x16_png_with_expected_pixels() {
    let img = chunk_image(&grass_corner(), 1, false, false);
    assert_eq!((img.width, img.height), (16, 16));
    assert_eq!(img.get_pixel(0, 0), [106, 170, 64]);
    assert_eq!(img.get_pixel(1, 0), [0, 0, 0]);
    assert_eq!(img.get_pixel(15, 15), [0, 0, 0]);
}

#[test]
fn composites_chunks_into_a_single_image() {
    let top_a = grass_corner();
    let top_b = top_with(vec![Some("minecraft:sand".to_string()); COLUMNS], vec![None; COLUMNS]);

    let mut img = Canvas::new(32, 16);
    render_into_big(&mut img, &top_a, 0, 0, 1, false, false);
    render_into_big(&mut img, &top_b, 16, 0, 1, false, false);

    assert_eq!((img.width, img.height), (32, 16));
    assert_eq!(img.get_pixel(0, 0), [106, 170, 64]);
    assert_eq!(img.get_pixel(1, 0), [0, 0, 0]);
    assert_eq!(img.get_pixel(15, 15), [0, 0, 0]);
    assert_eq!(img.get_pixel(16, 0), [219, 209, 160]);
    assert_eq!(img.get_pixel(31, 15), [219, 209, 160]);
}

#[test]
fn downsamples_by_most_common_block() {
    let mut blocks: Vec<Option<String>> = vec![None; COLUMNS];
    blocks[0] = Some("minecraft:sand".to_string());
    blocks[1] = Some("minecraft:sand".to_string());
    blocks[16] = Some("minecraft:sand".to_string());
    blocks[17] = Some("minecraft:grass_block".to_string());
    let img = chunk_image(&top_with(blocks, vec![None; COLUMNS]), 2, false, false);

    assert_eq!((img.width, img.height), (8, 8));
    assert_eq!(img.get_pixel(0, 0), [219, 209, 160]);
    assert_eq!(img.get_pixel(1, 0), [0, 0, 0]);
    assert_eq!(img.get_pixel(0, 1), [0, 0, 0]);
    assert_eq!(img.get_pixel(7, 7), [0, 0, 0]);
}

#[test]
fn scale_four_shrinks_a_16x16_chunk_to_4x4() {
    let top = top_with(vec![Some("minecraft:grass_block".to_string()); COLUMNS], vec![None; COLUMNS]);
    let img = chunk_image(&top, 4, false, false);
    assert_eq!((img.width, img.height), (4, 4));
    for z in 0..4 {
        for x in 0..4 {
            assert_eq!(img.get_pixel(x, z), [106, 170, 64]);
        }
    }
}

#[test]
fn odd_scales_round_the_chunk_size_up() {
    let top = top_with(vec![Some("minecraft:grass_block".to_string()); COLUMNS], vec![None; COLUMNS]);
    let img = chunk_image(&top, 3, false, false);
    assert_eq!((img.width, img.height), (6, 6));
    assert_eq!(img.get_pixel(5, 5), [106, 170, 64]);
}

#[test]
fn night_mode_darkens_chunk_images() {
    let img = chunk_image(&grass_corner(), 1, false, true);
    assert_eq!(img.get_pixel(0, 0), night_darken([106, 170, 64]));
}

#[test]
fn shaded_map_renders_darkened_shadow_cells() {
    let grid_w = 16;
    let grid_h = 16;
    let mut heights = vec![0i32; grid_w * grid_h];
    heights[1 * grid_w + 4] = 3;
    let colors: Vec<[u8; 3]> = vec![block_color("minecraft:sand"); grid_w * grid_h];
    let shadow = compute_shadows(&heights, grid_w, grid_h);

    let mut img = Canvas::new(16, 16);
    render_shaded_map(&mut img, &colors, &shadow, grid_w, 0, 0, 0, 0, 1, false);

    let lit = block_color("minecraft:sand");
    let dark = shade(lit);

    assert_eq!(img.get_pixel(3, 2), dark);
    assert_eq!(img.get_pixel(2, 3), dark);
    assert_eq!(img.get_pixel(1, 4), dark);
    assert_eq!(img.get_pixel(4, 1), lit);
    assert_eq!(img.get_pixel(0, 5), lit);
    assert_eq!(img.get_pixel(0, 0), lit);
}

#[test]
fn shaded_map_uses_night_shadows_in_night_mode() {
    let grid_w = 16;
    let mut heights = vec![0i32; 256];
    heights[1 * grid_w + 4] = 3;
    let colors: Vec<[u8; 3]> = vec![block_color("minecraft:sand"); 256];
    let shadow = compute_shadows(&heights, 16, 16);
    let mut img = Canvas::new(16, 16);
    render_shaded_map(&mut img, &colors, &shadow, grid_w, 0, 0, 0, 0, 1, true);
    assert_eq!(img.get_pixel(3, 2), night_shade(block_color("minecraft:sand")));
}

#[test]
fn supersample_renders_solid_5x5_blocks_without_interpolation() {
    let img = chunk_image_ss(&grass_corner(), SUPER_SAMPLE, false, false);
    assert_eq!((img.width, img.height), (16 * 5, 16 * 5));
    for z in 0..5u32 {
        for x in 0..5u32 {
            assert_eq!(img.get_pixel(x, z), [106, 170, 64]);
        }
    }
    assert_eq!(img.get_pixel(5, 0), [0, 0, 0]);
    assert_eq!(img.get_pixel(79, 79), [0, 0, 0]);
}

#[test]
fn supersample_shaded_map_draws_solid_blocks_with_smooth_shadow() {
    let grid_w = 8;
    let grid_h = 8;
    let s = 5usize;
    let mut heights = vec![0i32; grid_w * grid_h];
    heights[1 * grid_w + 4] = 3;
    let colors: Vec<[u8; 3]> = vec![block_color("minecraft:sand"); grid_w * grid_h];

    let pixel_heights = supersampled_heights(&heights, grid_w, grid_h, s);
    let pw = grid_w * s;
    let ph = grid_h * s;
    let pixel_shadow = compute_shadows(&pixel_heights, pw, ph);

    let mut img = Canvas::new((grid_w * s) as u32, (grid_h * s) as u32);
    render_ss(&mut img, &colors, Some(&pixel_shadow), None, None, grid_w, grid_h, s, false);

    let lit = block_color("minecraft:sand");
    let dark = shade(lit);

    for z in 0..s {
        for x in 0..s {
            assert_eq!(img.get_pixel(x as u32, z as u32), lit);
        }
    }

    let mut found_partial = false;
    for z in 0..grid_h {
        for x in 0..grid_w {
            let mut lit_cnt = 0;
            let mut dark_cnt = 0;
            for dz in 0..s {
                for dx in 0..s {
                    let c = img.get_pixel((x * s + dx) as u32, (z * s + dz) as u32);
                    if c == dark {
                        dark_cnt += 1;
                    } else if c == lit {
                        lit_cnt += 1;
                    }
                }
            }
            if lit_cnt > 0 && dark_cnt > 0 {
                found_partial = true;
            }
        }
    }
    assert!(found_partial, "a block should be partially shadowed along the smooth edge");
}

#[test]
fn hypersample_renders_solid_15x15_blocks_without_interpolation() {
    let img = chunk_image_ss(&grass_corner(), HYPER_SAMPLE, false, false);
    assert_eq!((img.width, img.height), (16 * 15, 16 * 15));
    for z in 0..15u32 {
        for x in 0..15u32 {
            assert_eq!(img.get_pixel(x, z), [106, 170, 64]);
        }
    }
    assert_eq!(img.get_pixel(15, 0), [0, 0, 0]);
    assert_eq!(img.get_pixel(239, 239), [0, 0, 0]);
}

#[test]
fn render_ss_applies_ambient_occlusion_gradient() {
    let grid_w = 2;
    let grid_h = 1;
    let s = 16usize;
    let heights = vec![0i32, 1];
    let colors = vec![block_color("minecraft:sand"), block_color("minecraft:sand")];
    let ao = ambient_occlusion(&heights, grid_w, grid_h, s);

    let mut img = Canvas::new((grid_w * s) as u32, (grid_h * s) as u32);
    render_ss(&mut img, &colors, None, Some(&ao), None, grid_w, grid_h, s, false);

    let lit = block_color("minecraft:sand");
    let edge = img.get_pixel((s - 1) as u32, 0);
    assert!(
        edge[0] < lit[0] && edge[1] < lit[1] && edge[2] < lit[2],
        "edge should be darker than the lit color"
    );
    assert_eq!(img.get_pixel((s + s / 2) as u32, 0), lit);
}

#[test]
fn chunk_png_supersampled_with_ao_darkens_the_lower_edge() {
    let mut blocks: Vec<Option<String>> = vec![None; COLUMNS];
    let mut heights: Vec<Option<i32>> = vec![None; COLUMNS];
    blocks[0] = Some("minecraft:sand".to_string());
    heights[0] = Some(0);
    blocks[1] = Some("minecraft:sand".to_string());
    heights[1] = Some(1);
    let img = chunk_image_ss_fx(&top_with(blocks, heights), 16, false, true, false, false);

    let s = 16u32;
    let lit = [219u8, 209, 160];
    assert_eq!(img.get_pixel(s + s / 2, s / 2), lit);
    let edge = img.get_pixel(s - 1, s / 2);
    assert!(
        edge[0] < lit[0] && edge[1] < lit[1] && edge[2] < lit[2],
        "lower block's facing edge should be darkened, got {edge:?}"
    );
    assert_eq!(img.get_pixel(0, s / 2), lit);
}

#[test]
fn render_ss_applies_bloom_glow_around_a_light() {
    let grid_w = 5;
    let grid_h = 1;
    let s = 4usize;
    let pw = grid_w * s;
    let colors = vec![[0u8, 0, 0]; grid_w * grid_h];
    let mut lights = vec![[0u8, 0, 0]; grid_w * grid_h];
    lights[2] = [255, 200, 90];
    let bloom_field = bloom(&lights, grid_w, grid_h, s, BLOOM_RADIUS_BLOCKS);

    let mut img = Canvas::new(pw as u32, (grid_h * s) as u32);
    render_ss(&mut img, &colors, None, None, Some(&bloom_field), grid_w, grid_h, s, false);

    let center = img.get_pixel(2 * s as u32 + s as u32 / 2, 0);
    assert!(center[0] > 200 && center[1] > 150, "the light block should glow, got {center:?}");
    let halo = img.get_pixel((2 * s + s / 2 + 2) as u32, 0);
    assert_ne!(halo, [0, 0, 0], "a pixel inside the radius should be lit by the bloom");
    assert_eq!(img.get_pixel(0, 0), [0, 0, 0], "outside the radius stays unlit");
}

#[test]
fn chunk_bloom_lights_up_around_a_torch() {
    let mut blocks: Vec<Option<String>> = vec![Some("minecraft:stone".to_string()); COLUMNS];
    blocks[8 * 16 + 8] = Some("minecraft:torch".to_string());
    let img = chunk_image_ss_fx(&top_with(blocks, vec![Some(0); COLUMNS]), 4, false, false, true, false);
    let stone = block_color("minecraft:stone");
    let near = img.get_pixel(8 * 4 + 2 + 3, 8 * 4 + 2);
    assert!(near[0] > stone[0], "a pixel near the torch is brightened");
    assert_eq!(img.get_pixel(0, 0), stone, "a far pixel is untouched");
}

#[test]
fn mode_ties_go_to_the_color_that_leads_first() {
    let a = [1u8, 2, 3];
    let b = [4u8, 5, 6];
    assert_eq!(mode_of(&vec![a, b, b, a]), b);
    assert_eq!(mode_of(&vec![a, b]), a);
    assert_eq!(mode_of(&vec![[0, 0, 0], [0, 0, 0], b]), b);
    assert_eq!(mode_of(&vec![[0, 0, 0]]), [0, 0, 0]);
    assert_eq!(mode_of(&vec![]), [0, 0, 0]);
}

#[test]
fn most_common_color_ignores_void_and_counts_the_area() {
    let mut blocks: Vec<Option<String>> = vec![None; 4 * 4];
    blocks[0] = Some("minecraft:stone".to_string());
    blocks[5] = Some("minecraft:sand".to_string());
    blocks[6] = Some("minecraft:sand".to_string());
    let under = vec![None; 16];
    assert_eq!(most_common_color(&blocks, &under, 4, 0, 4, 0, 4, false), block_color("minecraft:sand"));
    assert_eq!(most_common_color(&blocks, &under, 4, 0, 1, 0, 1, false), block_color("minecraft:stone"));
    assert_eq!(most_common_color(&blocks, &under, 4, 2, 4, 2, 4, false), [0, 0, 0]);
    let colors = vec![[9u8, 9, 9], [0, 0, 0], [7, 7, 7], [7, 7, 7]];
    assert_eq!(most_common_shaded_color(&colors, 2, 0, 2, 0, 2), [7, 7, 7]);
}

#[test]
fn a_shadowed_pixel_next_to_a_light_still_glows() {
    let grid_w = 2;
    let grid_h = 1;
    let s = 8usize;
    let colors = vec![[100u8, 100, 100], [40, 60, 80]];
    let n = grid_w * s * grid_h * s;
    let shadow = vec![true; n];
    let ao = vec![1u32; n];
    let glow = vec![[30u8, 0, 200]; n];
    let mut img = Canvas::new((grid_w * s) as u32, (grid_h * s) as u32);
    render_ss(&mut img, &colors, Some(&shadow), Some(&ao), Some(&glow), grid_w, grid_h, s, false);
    for y in 0..(grid_h * s) as u32 {
        for x in 0..(grid_w * s) as u32 {
            let p = img.get_pixel(x, y);
            assert!(p[0] >= 30 && p[2] >= 200);
        }
    }
    // Shade first (100 -> 55), then half of the ambient-occlusion band
    // (55 -> 27), then the glow is added on top.
    assert_eq!(img.get_pixel(0, 0), [57, 27, 227]);

    // Without any glow, lighting only darkens.
    let mut plain = Canvas::new((grid_w * s) as u32, (grid_h * s) as u32);
    render_ss(&mut plain, &colors, Some(&shadow), Some(&ao), None, grid_w, grid_h, s, true);
    for y in 0..(grid_h * s) as u32 {
        for x in 0..(grid_w * s) as u32 {
            let base = colors[(x as usize) / s];
            let p = plain.get_pixel(x, y);
            assert!(p[0] <= base[0] && p[1] <= base[1] && p[2] <= base[2]);
        }
    }
}
