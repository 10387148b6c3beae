use worldraw::chunk::{ChunkTop, COLUMNS};
use worldraw::dimension::{
    block_signature, classify_counts, dimension_info, dimension_region_path, sampled_enough,
    tally_signatures, DimKind,
};

#[test]
fn dimension_info_maps_known_ids() {
    let overworld = dimension_info(0).expect("overworld should be valid");
    assert_eq!(overworld.name, "overworld");
    assert_eq!(overworld.kind, None);
    assert_eq!(overworld.region_candidates, ["region"]);
    assert_eq!(overworld.out_prefix, "");
    assert_eq!(overworld.out_file, "world.png");

    let nether = dimension_info(1).expect("nether should be valid");
    assert_eq!(nether.name, "the_nether");
    assert_eq!(nether.kind, Some(DimKind::Nether));
    assert!(nether.region_candidates.contains(&"dimensions/minecraft:the_nether/region"));
    assert!(nether.region_candidates.contains(&"DIM1/region"));
    assert!(nether.region_candidates.contains(&"DIM-1/region"));
    assert_eq!(nether.out_prefix, "the_nether_");
    assert_eq!(nether.out_file, "the_nether.png");

    let end = dimension_info(-1).expect("the end should be valid");
    assert_eq!(end.name, "the_end");
    assert_eq!(end.kind, Some(DimKind::End));
    assert!(end.region_candidates.contains(&"dimensions/minecraft:the_end/region"));
    assert!(end.region_candidates.contains(&"DIM1/region"));
    assert!(end.region_candidates.contains(&"DIM-1/region"));
    assert_eq!(end.out_prefix, "the_end_");
    assert_eq!(end.out_file, "the_end.png");
}

#[test]
fn dimension_info_rejects_unknown_ids() {
    assert!(dimension_info(2).is_err());
    assert!(dimension_info(-2).is_err());
    assert!(dimension_info(99).is_err());
    assert_eq!(
        dimension_info(2).err().unwrap(),
        "Unknown dimension id 2. Valid ids: 0 (overworld), 1 (the nether), -1 (the end)."
    );
}

#[test]
fn region_folder_choice_prefers_modern_then_matching_legacy() {
    let nether = dimension_info(1).unwrap();
    // Modern folder present: used as-is.
    assert_eq!(dimension_region_path(&nether, &vec![true, true, true], &vec![None, None, None]), Some(0));
    // Legacy only: the one whose content is the nether.
    assert_eq!(
        dimension_region_path(&nether, &vec![false, true, true], &vec![None, Some(DimKind::End), Some(DimKind::Nether)]),
        Some(2)
    );
    assert_eq!(
        dimension_region_path(&nether, &vec![false, true, false], &vec![None, Some(DimKind::End), None]),
        None
    );
    let overworld = dimension_info(0).unwrap();
    assert_eq!(dimension_region_path(&overworld, &vec![true], &vec![None]), Some(0));
    assert_eq!(dimension_region_path(&overworld, &vec![false], &vec![None]), None);
}

#[test]
fn signature_blocks_classify_a_folder() {
    assert_eq!(block_signature("minecraft:netherrack"), Some(DimKind::Nether));
    assert_eq!(block_signature("minecraft:end_stone"), Some(DimKind::End));
    assert_eq!(block_signature("minecraft:stone"), None);

    let mut blocks: Vec<Option<String>> = vec![None; COLUMNS];
    for i in 0..10 {
        blocks[i] = Some("minecraft:netherrack".to_string());
    }
    blocks[20] = Some("minecraft:end_rod".to_string());
    let top = ChunkTop { blocks, heights: vec![None; COLUMNS], under: vec![None; COLUMNS] };
    assert_eq!(tally_signatures(&top, 1, 2), (11, 3));

    assert!(!sampled_enough(10, 5));
    assert!(sampled_enough(10, 6));
    assert_eq!(classify_counts(0, 0), None);
    assert_eq!(classify_counts(3, 2), Some(DimKind::Nether));
    assert_eq!(classify_counts(2, 2), Some(DimKind::End));
}
