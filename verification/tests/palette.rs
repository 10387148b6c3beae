use worldraw::palette::{block_color, hash_color};

#[test]
fn known_blocks_get_their_colors() {
    assert_eq!(block_color("minecraft:grass_block"), [106, 170, 64]);
    assert_eq!(block_color("minecraft:water"), [62, 121, 201]);
    assert_eq!(block_color("minecraft:sand"), [219, 209, 160]);
    assert_eq!(block_color("minecraft:netherrack"), [135, 58, 52]);
    assert_eq!(block_color("minecraft:end_stone"), [221, 219, 165]);
    assert_eq!(block_color("minecraft:obsidian"), [28, 24, 38]);
    assert_eq!(block_color("minecraft:glowstone"), [250, 218, 138]);
    assert_eq!(block_color("minecraft:oak_planks"), [162, 130, 78]);
}

#[test]
fn unknown_blocks_are_stable_and_bounded() {
    let a = block_color("minecraft:some_unknown_block_xyz");
    let b = block_color("minecraft:some_unknown_block_xyz");
    assert_eq!(a, b, "hash color must be deterministic");
    for channel in a {
        assert!((30..=210).contains(&channel));
    }
    assert_ne!(
        block_color("minecraft:one_block"),
        block_color("minecraft:two_block"),
        "distinct blocks should get distinct fallback colors"
    );
}

#[test]
fn nether_blocks_have_colors() {
    assert_eq!(block_color("minecraft:soul_sand"), [120, 110, 105]);
    assert_eq!(block_color("minecraft:magma_block"), [190, 60, 30]);
    assert_eq!(block_color("minecraft:crimson_stem"), [130, 50, 60]);
    assert_eq!(block_color("minecraft:warped_stem"), [40, 140, 140]);
    assert_eq!(block_color("minecraft:shroomlight"), [220, 130, 100]);
    assert_eq!(block_color("minecraft:blackstone"), [42, 42, 42]);
}

#[test]
fn end_blocks_have_colors() {
    assert_eq!(block_color("minecraft:purpur_block"), [197, 168, 220]);
    assert_eq!(block_color("minecraft:end_stone_bricks"), [210, 208, 155]);
    assert_eq!(block_color("minecraft:chorus_plant"), [180, 160, 210]);
}

#[test]
fn all_dye_variants_have_distinct_colors() {
    assert_ne!(block_color("minecraft:red_wool"), block_color("minecraft:blue_wool"));
    assert_ne!(block_color("minecraft:white_wool"), block_color("minecraft:black_wool"));
    assert_ne!(block_color("minecraft:red_concrete"), block_color("minecraft:blue_concrete"));
    assert_ne!(block_color("minecraft:red_terracotta"), block_color("minecraft:blue_terracotta"));
    assert_ne!(
        block_color("minecraft:red_stained_glass"),
        block_color("minecraft:blue_stained_glass")
    );
}

#[test]
fn stone_variants_have_colors() {
    assert_eq!(block_color("minecraft:stone"), [125, 125, 125]);
    assert_eq!(block_color("minecraft:cobblestone"), [118, 118, 118]);
    assert_eq!(block_color("minecraft:deepslate"), [67, 67, 67]);
    assert_eq!(block_color("minecraft:calcite"), [233, 231, 226]);
    assert_eq!(block_color("minecraft:tuff"), [95, 95, 95]);
}

#[test]
fn ice_variants_have_colors() {
    assert_eq!(block_color("minecraft:ice"), [126, 175, 232]);
    assert_eq!(block_color("minecraft:packed_ice"), [145, 190, 231]);
    assert_eq!(block_color("minecraft:blue_ice"), [98, 162, 232]);
}

#[test]
fn ore_blocks_have_colors() {
    assert_eq!(block_color("minecraft:diamond_ore"), [80, 220, 220]);
    assert_eq!(block_color("minecraft:deepslate_diamond_ore"), [50, 110, 110]);
    assert_eq!(block_color("minecraft:redstone_ore"), [120, 120, 120]);
    assert_eq!(block_color("minecraft:ancient_debris"), [100, 75, 75]);
}

#[test]
fn hash_color_is_the_fallback_of_unknown_blocks() {
    let name = "minecraft:definitely_not_a_block";
    assert_eq!(block_color(name), hash_color(name));
    let c = hash_color(name);
    for channel in c {
        assert!((30..210).contains(&channel));
    }
}
