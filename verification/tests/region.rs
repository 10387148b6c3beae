use worldraw::chunk::{ChunkTop, COLUMNS, VOID_H};
use worldraw::region::{
    chunk_coordinate, chunk_file_name, chunk_is_read_safe, composite_chunk, count_region_index,
    parse_region_coords, place_chunk, region_chunk, region_fits, region_is_read_safe, render_chunk,
    scan_region,
    Bounds,
};
use worldraw::render::Canvas;

#[test]
fn parse_region_coords_reads_coordinates_from_filename() {
    assert_eq!(parse_region_coords("region/r.1.-2.mca"), Some((1, -2)));
    assert_eq!(parse_region_coords("region/r.0.0.mca"), Some((0, 0)));
    assert_eq!(parse_region_coords("region/r.-5.-99.mca"), Some((-5, -99)));
    assert_eq!(parse_region_coords("region/foo.mca"), None);
    assert_eq!(parse_region_coords("region/r.1.mca"), None);
    assert_eq!(parse_region_coords("region/r.x.z.mca"), None);
}

#[test]
fn region_coords_follow_path_file_name_rules() {
    assert_eq!(parse_region_coords("r.3.4.mca"), Some((3, 4)));
    assert_eq!(parse_region_coords("world/region/r.3.4.mca/"), Some((3, 4)));
    assert_eq!(parse_region_coords("world/region/.."), None);
    assert_eq!(parse_region_coords(""), None);
    assert_eq!(parse_region_coords("r.+3.4.mca"), Some((3, 4)));
    assert_eq!(parse_region_coords("r.99999999999.4.mca"), None);
}

#[test]
fn bounds_merge_covers_both_boxes() {
    let a = Bounds { min_x: 0, min_z: 0, max_x: 2, max_z: 2 };
    let b = Bounds { min_x: -3, min_z: 1, max_x: 1, max_z: 5 };
    let merged = a.merged(&b);
    assert_eq!(merged.min_x, -3);
    assert_eq!(merged.min_z, 0);
    assert_eq!(merged.max_x, 2);
    assert_eq!(merged.max_z, 5);
}

fn index_with(entries: &[(usize, u32)]) -> Vec<u8> {
    let mut index = vec![0u8; 4096];
    for (entry, offset) in entries {
        let b = entry * 4;
        index[b] = (offset >> 16) as u8;
        index[b + 1] = (offset >> 8) as u8;
        index[b + 2] = (*offset & 0xff) as u8;
        index[b + 3] = 1;
    }
    index
}

#[test]
fn location_table_counts_listed_chunks() {
    // Region (1, 2): chunks at local (0, 0) and (31, 1).
    let index = index_with(&[(0, 2), (63, 3)]);
    let (count, bounds) = count_region_index(1, 2, &index);
    assert_eq!(count, 2);
    assert_eq!(bounds, Some(Bounds { min_x: 32, min_z: 64, max_x: 63, max_z: 65 }));

    let (none, nb) = count_region_index(0, 0, &vec![0u8; 4096]);
    assert_eq!(none, 0);
    assert_eq!(nb, None);

    // A truncated table lists only the entries it holds completely.
    let (short, _) = count_region_index(0, 0, &index[..6]);
    assert_eq!(short, 1);
}

#[test]
fn short_region_data_is_refused_by_mca() {
    let data = index_with(&[(0, 2)]);
    assert!(region_is_read_safe(&data));
    assert!(region_chunk(&data, 0, 0).is_err());
    let (count, bounds) = scan_region(0, 0, &data);
    assert_eq!(count, 0);
    assert!(bounds.is_none());
}

fn region_with_raw_chunk(payload: &[u8]) -> Vec<u8> {
    // Headers (two sectors), then one sector holding chunk (0, 0) stored
    // uncompressed (compression byte 3).
    let mut data = vec![0u8; 3 * 4096];
    data[0] = 0;
    data[1] = 0;
    data[2] = 2;
    data[3] = 1;
    let len = (payload.len() + 1) as u32;
    data[8192..8196].copy_from_slice(&len.to_be_bytes());
    data[8196] = 3;
    data[8197..8197 + payload.len()].copy_from_slice(payload);
    data
}

#[test]
fn mca_reads_an_uncompressed_chunk() {
    let payload = [0x0a, 0x00, 0x00, 0x00];
    let data = region_with_raw_chunk(&payload);
    assert!(region_is_read_safe(&data));
    assert_eq!(region_chunk(&data, 0, 0).unwrap(), Some(payload.to_vec()));
    assert_eq!(region_chunk(&data, 1, 0).unwrap(), None);
    let (count, bounds) = scan_region(-1, 2, &data);
    assert_eq!(count, 1);
    assert_eq!(bounds, Some(Bounds { min_x: -32, min_z: 64, max_x: -32, max_z: 64 }));
}

#[test]
fn custom_compression_headers_must_hold_their_id() {
    let mut data = region_with_raw_chunk(&[0x0a, 0x00, 0x00, 0x00]);
    // Claim a custom compression whose id is longer than the chunk.
    data[8196] = 127;
    data[8197] = 0xff;
    data[8198] = 0xff;
    assert!(!chunk_is_read_safe(&data, 0, 0));
    assert!(!region_is_read_safe(&data));
    assert!(chunk_is_read_safe(&data, 1, 0));
}

#[test]
fn chunk_file_names_carry_the_dimension_prefix() {
    assert_eq!(chunk_file_name("", 3, -12), "c_3_-12.png");
    assert_eq!(chunk_file_name("the_nether_", -2147483648, 0), "the_nether_c_-2147483648_0.png");
    assert_eq!(chunk_coordinate(-1, 31), -1);
    assert_eq!(chunk_coordinate(2, 5), 69);
}

fn sand_top() -> ChunkTop {
    ChunkTop {
        blocks: vec![Some("minecraft:sand".to_string()); COLUMNS],
        heights: (0..COLUMNS).map(|i| if i == 0 { None } else { Some(64) }).collect(),
        under: vec![None; COLUMNS],
    }
}

#[test]
fn placing_a_chunk_fills_only_its_area() {
    let grid_w = 48;
    let grid_h = 32;
    let mut heights = vec![7i32; grid_w * grid_h];
    let mut colors = vec![[1u8, 2, 3]; grid_w * grid_h];
    let mut lights = vec![[9u8, 9, 9]; grid_w * grid_h];
    let mut top = sand_top();
    top.blocks[0] = None;
    top.blocks[1] = Some("minecraft:torch".to_string());
    place_chunk(&mut heights, &mut colors, &mut lights, grid_w, grid_h, &top, 16, 16, false, false);
    let at = |x: usize, z: usize| z * grid_w + x;
    assert_eq!(heights[at(16, 16)], VOID_H);
    assert_eq!(colors[at(16, 16)], [0, 0, 0]);
    assert_eq!(heights[at(17, 16)], 64);
    assert_eq!(lights[at(17, 16)], [255, 200, 90]);
    assert_eq!(colors[at(31, 31)], [219, 209, 160]);
    assert_eq!(lights[at(31, 31)], [0, 0, 0]);
    assert_eq!(heights[at(15, 16)], 7);
    assert_eq!(colors[at(32, 16)], [1, 2, 3]);
    assert_eq!(lights[at(16, 15)], [9, 9, 9]);
}

#[test]
fn composite_chunks_land_at_their_scaled_offset() {
    let mut img = Canvas::new(16, 8);
    composite_chunk(&mut img, &sand_top(), 5, 3, 4, 3, 2, false, false);
    assert_eq!(img.get_pixel(8, 0), [219, 209, 160]);
    assert_eq!(img.get_pixel(7, 0), [0, 0, 0]);
    assert_eq!(img.get_pixel(15, 7), [219, 209, 160]);
}

#[test]
fn per_chunk_renderer_follows_the_sampling_mode() {
    let top = sand_top();
    let scaled = render_chunk(&top, 2, 1, false, false, false, false);
    assert_eq!((scaled.width, scaled.height), (8, 8));
    let ss = render_chunk(&top, 1, 5, false, false, false, false);
    assert_eq!((ss.width, ss.height), (80, 80));
    let fx = render_chunk(&top, 1, 5, true, false, false, false);
    assert_eq!((fx.width, fx.height), (80, 80));
}

#[test]
fn region_fits_keeps_chunk_coordinates_in_i32() {
    assert!(region_fits(0, 0));
    assert!(region_fits(-3, 7));
    assert!(region_fits(i32::MIN / 32, (i32::MAX - 31) / 32));
    assert!(!region_fits(i32::MAX / 32 + 1, 0));
    assert!(!region_fits(0, i32::MIN / 32 - 1));
}
