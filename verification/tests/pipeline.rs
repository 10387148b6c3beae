use worldraw::args::{parse_args, Args, ParsedArgs};
use worldraw::pipeline::{
    add_region_scan, checked_image_size, image_size, progress_plan, render_pass, validate_config,
    world_block_span, DimStats, RenderConfig, RenderPass, RenderResult,
};
use worldraw::region::Bounds;

fn config() -> RenderConfig {
    RenderConfig {
        world_path: "w".to_string(),
        dim: 0,
        single: true,
        scale: 1,
        shadows: false,
        supersample: false,
        hypersample: false,
        ambient_occlusion: false,
        bloom: false,
        transparency: false,
        night: false,
        output_dir: "o".to_string(),
    }
}

#[test]
fn config_rules_match_the_command_line() {
    assert_eq!(validate_config(&config()), Ok(()));
    let mut c = config();
    c.supersample = true;
    c.hypersample = true;
    assert_eq!(validate_config(&c), Err("Supersample and hypersampling cannot be combined".to_string()));
    let mut c = config();
    c.scale = 0;
    assert_eq!(validate_config(&c), Err("Scale must be >= 1".to_string()));
    let mut c = config();
    c.bloom = true;
    assert_eq!(validate_config(&c), Err("Bloom requires supersampling or hypersampling".to_string()));
    c.supersample = true;
    assert_eq!(validate_config(&c), Ok(()));
    assert_eq!(c.upsample_factor(), Some(5));
}

#[test]
fn cli_config_writes_to_output() {
    let a = Args {
        world_path: "saves/w".to_string(),
        single: true,
        scale: 3,
        dim: -1,
        shadows: true,
        supersample: false,
        hypersample: true,
        ambient_occlusion: false,
        bloom: true,
        transparency: false,
        night: true,
    };
    let c = RenderConfig::from_args(&a);
    assert_eq!(c.output_dir, "output");
    assert_eq!(c.world_path, "saves/w");
    assert_eq!(c.dim, -1);
    assert!(c.hypersample && c.bloom && c.night && c.shadows);
    assert_eq!(c.upsample_factor(), Some(15));
}

#[test]
fn empty_results_and_stats() {
    let r = RenderResult::empty("overworld", 3, "world.png");
    assert_eq!(r.chunks, 0);
    assert_eq!(r.region_files, 3);
    assert!(r.single_image.is_none() && r.chunk_dir.is_none());
    let s = DimStats::empty();
    assert_eq!((s.chunks, s.blocks_w, s.blocks_h, s.region_files), (0, 0, 0, 0));
}

#[test]
fn world_extent_and_image_size() {
    let b = Bounds { min_x: 32, min_z: 64, max_x: 63, max_z: 65 };
    assert_eq!(world_block_span(Some(b)), (32 * 16, 2 * 16));
    assert_eq!(world_block_span(None), (0, 0));
    assert_eq!(image_size(b, 1, None), (512, 32));
    assert_eq!(image_size(b, 3, None), (171, 11));
    assert_eq!(image_size(b, 1, Some(5)), (2560, 160));
    let (n, merged) = add_region_scan(2, Some(b), 5, Some(Bounds { min_x: 0, min_z: 70, max_x: 1, max_z: 71 }));
    assert_eq!(n, 7);
    assert_eq!(merged, Some(Bounds { min_x: 0, min_z: 64, max_x: 63, max_z: 71 }));
    assert_eq!(add_region_scan(0, None, 0, None), (0, None));
}

#[test]
fn progress_reserves_a_quarter_for_the_final_image() {
    let p = progress_plan(24, true);
    assert_eq!(p.total_units, 24 + 6);
    assert_eq!(p.finalize_base, 24);
    assert_eq!(p.lighting_at, 27);
    assert_eq!(p.encoding_at, 24 + 4);
    let q = progress_plan(24, false);
    assert_eq!(q.total_units, 24);
    assert_eq!(progress_plan(1, true).total_units, 2);
}

#[test]
fn checked_image_size_refuses_what_image_size_cannot_take() {
    let b = Bounds { min_x: -1, min_z: 0, max_x: 1, max_z: 0 };
    assert_eq!(checked_image_size(b, 1, None), Some((48, 16)));
    assert_eq!(checked_image_size(b, 5, None), Some((10, 4)));
    assert_eq!(checked_image_size(b, 1, Some(15)), Some((720, 240)));
    assert_eq!(checked_image_size(b, 0, None), None);
    let empty = Bounds { min_x: 2, min_z: 0, max_x: 1, max_z: 0 };
    assert_eq!(checked_image_size(empty, 1, None), None);
    let huge = Bounds { min_x: -100_000_000, min_z: 0, max_x: 100_000_000, max_z: 0 };
    assert_eq!(checked_image_size(huge, 1, Some(15)), None);
}

#[test]
fn parsed_command_lines_pass_the_render_rules() {
    let lines: Vec<Vec<&str>> = vec![
        vec!["world", "-s", "-hs", "-ao", "-b", "-r"],
        vec!["world", "-ss", "-t", "-n"],
        vec!["world", "-z", "3", "-s"],
        vec!["world", "--scale=7", "--dim=-1"],
    ];
    for line in lines {
        let raw: Vec<String> = line.iter().map(|s| s.to_string()).collect();
        let args = match parse_args(&raw) {
            Ok(ParsedArgs::Run(a)) => a,
            _ => panic!("{line:?} should parse"),
        };
        let config = RenderConfig::from_args(&args);
        assert_eq!(validate_config(&config), Ok(()));
        if args.supersample || args.hypersample {
            assert_eq!(args.scale, 1);
        }
    }
    let raw: Vec<String> = vec!["world".to_string(), "-ss".to_string(), "-z".to_string(), "1".to_string()];
    assert!(parse_args(&raw).is_err());
}

#[test]
fn render_pass_follows_the_flags_and_results_record_it() {
    let mut c = config();
    assert!(matches!(render_pass(&c), RenderPass::Scaled));
    c.supersample = true;
    assert!(matches!(render_pass(&c), RenderPass::Supersampled(5)));
    c.bloom = true;
    assert!(matches!(render_pass(&c), RenderPass::LitSupersampled(5)));
    c.supersample = false;
    c.hypersample = true;
    assert!(matches!(render_pass(&c), RenderPass::LitSupersampled(15)));
    c.hypersample = false;
    c.bloom = false;
    c.shadows = true;
    assert!(matches!(render_pass(&c), RenderPass::ShadedMap));
    c.single = false;
    assert!(matches!(render_pass(&c), RenderPass::PerChunk));

    let r = RenderResult::single("overworld", 3, 40, 64, 32, "out/world.png".to_string(), "world.png");
    assert_eq!((r.chunks, r.width, r.height), (40, 64, 32));
    assert_eq!(r.single_image.as_deref(), Some("out/world.png"));
    assert!(r.chunk_dir.is_none());
    let r = RenderResult::per_chunk("the_end", 2, 7, "out".to_string(), "the_end.png");
    assert_eq!((r.chunks, r.width, r.height, r.region_files), (7, 0, 0, 2));
    assert!(r.single_image.is_none());
    assert_eq!(r.chunk_dir.as_deref(), Some("out"));
}
