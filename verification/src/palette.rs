//! Rendering color palette for Minecraft blocks.
//!
//! Each block maps to a top-down view color `[R, G, B]` approximating the
//! block's top face. Unknown blocks fall back to a stable hash-derived color so
//! that distinct unknown blocks stay visually distinct.

use vstd::prelude::*;

use vstd::string::StringSliceAdditionalSpecFns;
use vstd::utf8::encode_utf8;

use crate::text::str_eq;

verus! {

/// The hand-picked color of a well-known block, or `None` for a block that is
/// not in the palette.
pub open spec fn palette_color(n: Seq<char>) -> Option<[u8; 3]> {
    if n == "minecraft:grass_block"@ {
        Some([106, 170, 64])
    } else if n == "minecraft:grass_block_fern"@ {
        Some([106, 170, 64])
    } else if n == "minecraft:dirt"@ {
        Some([134, 96, 67])
    } else if n == "minecraft:dirt_with_roots"@ {
        Some([124, 90, 60])
    } else if n == "minecraft:coarse_dirt"@ {
        Some([134, 96, 67])
    } else if n == "minecraft:rooted_dirt"@ {
        Some([124, 90, 60])
    } else if n == "minecraft:podzol"@ {
        Some([95, 70, 42])
    } else if n == "minecraft:podzol_snow"@ {
        Some([240, 245, 250])
    } else if n == "minecraft:mycelium"@ {
        Some([120, 104, 120])
    } else if n == "minecraft:moss_block"@ {
        Some([80, 130, 60])
    } else if n == "minecraft:moss_carpet"@ {
        Some([80, 130, 60])
    } else if n == "minecraft:mud"@ {
        Some([78, 60, 46])
    } else if n == "minecraft:mud_bricks"@ {
        Some([115, 85, 62])
    } else if n == "minecraft:packed_mud"@ {
        Some([90, 70, 55])
    } else if n == "minecraft:stone"@ {
        Some([125, 125, 125])
    } else if n == "minecraft:cobblestone"@ {
        Some([118, 118, 118])
    } else if n == "minecraft:mossy_cobblestone"@ {
        Some([100, 110, 95])
    } else if n == "minecraft:stone_bricks"@ {
        Some([125, 125, 125])
    } else if n == "minecraft:mossy_stone_bricks"@ {
        Some([105, 115, 100])
    } else if n == "minecraft:cracked_stone_bricks"@ {
        Some([120, 120, 120])
    } else if n == "minecraft:chiseled_stone_bricks"@ {
        Some([130, 130, 130])
    } else if n == "minecraft:smooth_stone"@ {
        Some([140, 140, 140])
    } else if n == "minecraft:granite"@ {
        Some([138, 73, 56])
    } else if n == "minecraft:polished_granite"@ {
        Some([150, 80, 60])
    } else if n == "minecraft:smooth_granite"@ {
        Some([155, 85, 65])
    } else if n == "minecraft:diorite"@ {
        Some([200, 200, 200])
    } else if n == "minecraft:polished_diorite"@ {
        Some([210, 210, 210])
    } else if n == "minecraft:smooth_diorite"@ {
        Some([215, 215, 215])
    } else if n == "minecraft:andesite"@ {
        Some([136, 136, 136])
    } else if n == "minecraft:polished_andesite"@ {
        Some([145, 145, 145])
    } else if n == "minecraft:smooth_andesite"@ {
        Some([150, 150, 150])
    } else if n == "minecraft:deepslate"@ {
        Some([67, 67, 67])
    } else if n == "minecraft:cobbled_deepslate"@ {
        Some([72, 72, 72])
    } else if n == "minecraft:polished_deepslate"@ {
        Some([80, 80, 80])
    } else if n == "minecraft:deepslate_bricks"@ {
        Some([70, 70, 70])
    } else if n == "minecraft:deepslate_tiles"@ {
        Some([65, 65, 65])
    } else if n == "minecraft:mossy_deepslate"@ {
        Some([55, 65, 55])
    } else if n == "minecraft:cracked_deepslate_bricks"@ {
        Some([65, 65, 65])
    } else if n == "minecraft:cracked_deepslate_tiles"@ {
        Some([60, 60, 60])
    } else if n == "minecraft:chiseled_deepslate"@ {
        Some([75, 75, 75])
    } else if n == "minecraft:reinforced_deepslate"@ {
        Some([70, 70, 70])
    } else if n == "minecraft:tuff"@ {
        Some([95, 95, 95])
    } else if n == "minecraft:tuff_bricks"@ {
        Some([90, 90, 90])
    } else if n == "minecraft:calcite"@ {
        Some([233, 231, 226])
    } else if n == "minecraft:dripstone_block"@ {
        Some([170, 145, 120])
    } else if n == "minecraft:pointed_dripstone"@ {
        Some([165, 140, 115])
    } else if n == "minecraft:basalt"@ {
        Some([110, 108, 108])
    } else if n == "minecraft:polished_basalt"@ {
        Some([115, 113, 113])
    } else if n == "minecraft:smooth_basalt"@ {
        Some([120, 118, 118])
    } else if n == "minecraft:bedrock"@ {
        Some([110, 110, 110])
    } else if n == "minecraft:obsidian"@ {
        Some([28, 24, 38])
    } else if n == "minecraft:crying_obsidian"@ {
        Some([30, 30, 60])
    } else if n == "minecraft:bricks"@ {
        Some([150, 96, 84])
    } else if n == "minecraft:sand"@ {
        Some([219, 209, 160])
    } else if n == "minecraft:red_sand"@ {
        Some([190, 110, 70])
    } else if n == "minecraft:sandstone"@ {
        Some([217, 209, 158])
    } else if n == "minecraft:smooth_sandstone"@ {
        Some([220, 212, 165])
    } else if n == "minecraft:chiseled_sandstone"@ {
        Some([215, 207, 155])
    } else if n == "minecraft:cut_sandstone"@ {
        Some([218, 210, 160])
    } else if n == "minecraft:red_sandstone"@ {
        Some([189, 110, 60])
    } else if n == "minecraft:smooth_red_sandstone"@ {
        Some([192, 115, 65])
    } else if n == "minecraft:chiseled_red_sandstone"@ {
        Some([187, 108, 58])
    } else if n == "minecraft:cut_red_sandstone"@ {
        Some([190, 112, 62])
    } else if n == "minecraft:gravel"@ {
        Some([125, 125, 125])
    } else if n == "minecraft:snow"@ {
        Some([247, 250, 253])
    } else if n == "minecraft:snow_block"@ {
        Some([245, 248, 252])
    } else if n == "minecraft:powder_snow"@ {
        Some([240, 245, 250])
    } else if n == "minecraft:ice"@ {
        Some([126, 175, 232])
    } else if n == "minecraft:packed_ice"@ {
        Some([145, 190, 231])
    } else if n == "minecraft:blue_ice"@ {
        Some([98, 162, 232])
    } else if n == "minecraft:frosted_ice"@ {
        Some([130, 180, 235])
    } else if n == "minecraft:water"@ {
        Some([62, 121, 201])
    } else if n == "minecraft:flowing_water"@ {
        Some([62, 121, 201])
    } else if n == "minecraft:lava"@ {
        Some([243, 118, 53])
    } else if n == "minecraft:flowing_lava"@ {
        Some([243, 118, 53])
    } else if n == "minecraft:netherrack"@ {
        Some([135, 58, 52])
    } else if n == "minecraft:nether_bricks"@ {
        Some([45, 30, 30])
    } else if n == "minecraft:red_nether_bricks"@ {
        Some([100, 40, 35])
    } else if n == "minecraft:cracked_nether_bricks"@ {
        Some([40, 28, 28])
    } else if n == "minecraft:chiseled_nether_bricks"@ {
        Some([50, 35, 35])
    } else if n == "minecraft:quartz_block"@ {
        Some([234, 228, 221])
    } else if n == "minecraft:smooth_quartz"@ {
        Some([240, 235, 228])
    } else if n == "minecraft:quartz_bricks"@ {
        Some([230, 224, 217])
    } else if n == "minecraft:chiseled_quartz_block"@ {
        Some([235, 230, 223])
    } else if n == "minecraft:quartz_pillar"@ {
        Some([232, 226, 219])
    } else if n == "minecraft:soul_sand"@ {
        Some([120, 110, 105])
    } else if n == "minecraft:soul_soil"@ {
        Some([110, 100, 95])
    } else if n == "minecraft:magma_block"@ {
        Some([190, 60, 30])
    } else if n == "minecraft:nether_wart_block"@ {
        Some([96, 32, 110])
    } else if n == "minecraft:warped_wart_block"@ {
        Some([120, 210, 195])
    } else if n == "minecraft:blackstone"@ {
        Some([42, 42, 42])
    } else if n == "minecraft:polished_blackstone"@ {
        Some([50, 50, 50])
    } else if n == "minecraft:chiseled_blackstone"@ {
        Some([48, 48, 48])
    } else if n == "minecraft:polished_blackstone_bricks"@ {
        Some([46, 46, 46])
    } else if n == "minecraft:gilded_blackstone"@ {
        Some([52, 52, 55])
    } else if n == "minecraft:ancient_debris"@ {
        Some([100, 75, 75])
    } else if n == "minecraft:crimson_nylium"@ {
        Some([160, 80, 120])
    } else if n == "minecraft:warped_nylium"@ {
        Some([100, 180, 170])
    } else if n == "minecraft:crimson_roots"@ {
        Some([140, 70, 100])
    } else if n == "minecraft:warped_roots"@ {
        Some([100, 170, 160])
    } else if n == "minecraft:shroomlight"@ {
        Some([220, 130, 100])
    } else if n == "minecraft:weeping_vines"@ {
        Some([160, 60, 100])
    } else if n == "minecraft:twisting_vines"@ {
        Some([100, 180, 170])
    } else if n == "minecraft:nether_sprouts"@ {
        Some([140, 80, 110])
    } else if n == "minecraft:nether_wart"@ {
        Some([200, 40, 40])
    } else if n == "minecraft:chain"@ {
        Some([80, 80, 80])
    } else if n == "minecraft:respawn_anchor"@ {
        Some([20, 20, 20])
    } else if n == "minecraft:lodestone"@ {
        Some([60, 60, 60])
    } else if n == "minecraft:resin_block"@ {
        Some([200, 150, 100])
    } else if n == "minecraft:resin_clumps"@ {
        Some([200, 150, 100])
    } else if n == "minecraft:end_stone"@ {
        Some([221, 219, 165])
    } else if n == "minecraft:end_stone_bricks"@ {
        Some([210, 208, 155])
    } else if n == "minecraft:purpur_block"@ {
        Some([197, 168, 220])
    } else if n == "minecraft:purpur_pillar"@ {
        Some([200, 175, 225])
    } else if n == "minecraft:purpur_stairs"@ {
        Some([195, 165, 218])
    } else if n == "minecraft:chorus_plant"@ {
        Some([180, 160, 210])
    } else if n == "minecraft:chorus_flower"@ {
        Some([200, 180, 230])
    } else if n == "minecraft:end_rod"@ {
        Some([220, 230, 200])
    } else if n == "minecraft:ender_chest"@ {
        Some([30, 30, 50])
    } else if n == "minecraft:dragon_egg"@ {
        Some([40, 60, 40])
    } else if n == "minecraft:oak_planks"@ {
        Some([162, 130, 78])
    } else if n == "minecraft:spruce_planks"@ {
        Some([112, 84, 50])
    } else if n == "minecraft:birch_planks"@ {
        Some([192, 175, 121])
    } else if n == "minecraft:jungle_planks"@ {
        Some([160, 134, 68])
    } else if n == "minecraft:acacia_planks"@ {
        Some([168, 121, 53])
    } else if n == "minecraft:dark_oak_planks"@ {
        Some([66, 43, 20])
    } else if n == "minecraft:mangrove_planks"@ {
        Some([145, 104, 86])
    } else if n == "minecraft:cherry_planks"@ {
        Some([185, 143, 133])
    } else if n == "minecraft:pale_oak_planks"@ {
        Some([190, 178, 124])
    } else if n == "minecraft:crimson_planks"@ {
        Some([148, 60, 68])
    } else if n == "minecraft:warped_planks"@ {
        Some([50, 150, 150])
    } else if n == "minecraft:bamboo_planks"@ {
        Some([200, 190, 100])
    } else if n == "minecraft:bamboo_mosaic"@ {
        Some([200, 195, 105])
    } else if n == "minecraft:oak_log"@ {
        Some([104, 82, 50])
    } else if n == "minecraft:spruce_log"@ {
        Some([55, 40, 25])
    } else if n == "minecraft:birch_log"@ {
        Some([226, 224, 216])
    } else if n == "minecraft:jungle_log"@ {
        Some([134, 114, 62])
    } else if n == "minecraft:acacia_log"@ {
        Some([148, 103, 62])
    } else if n == "minecraft:dark_oak_log"@ {
        Some([46, 35, 16])
    } else if n == "minecraft:mangrove_log"@ {
        Some([120, 90, 70])
    } else if n == "minecraft:cherry_log"@ {
        Some([150, 105, 95])
    } else if n == "minecraft:pale_oak_log"@ {
        Some([180, 165, 120])
    } else if n == "minecraft:crimson_stem"@ {
        Some([130, 50, 60])
    } else if n == "minecraft:warped_stem"@ {
        Some([40, 140, 140])
    } else if n == "minecraft:bamboo"@ {
        Some([180, 170, 90])
    } else if n == "minecraft:bamboo_block"@ {
        Some([180, 170, 90])
    } else if n == "minecraft:chiseled_bamboo_block"@ {
        Some([175, 165, 85])
    } else if n == "minecraft:oak_wood"@ {
        Some([95, 75, 45])
    } else if n == "minecraft:spruce_wood"@ {
        Some([50, 38, 22])
    } else if n == "minecraft:birch_wood"@ {
        Some([220, 218, 210])
    } else if n == "minecraft:jungle_wood"@ {
        Some([130, 110, 58])
    } else if n == "minecraft:acacia_wood"@ {
        Some([144, 100, 58])
    } else if n == "minecraft:dark_oak_wood"@ {
        Some([42, 33, 15])
    } else if n == "minecraft:mangrove_wood"@ {
        Some([115, 85, 65])
    } else if n == "minecraft:cherry_wood"@ {
        Some([145, 100, 90])
    } else if n == "minecraft:pale_oak_wood"@ {
        Some([175, 160, 115])
    } else if n == "minecraft:crimson_hyphae"@ {
        Some([125, 48, 58])
    } else if n == "minecraft:warped_hyphae"@ {
        Some([38, 135, 135])
    } else if n == "minecraft:stripped_oak_log"@ {
        Some([130, 105, 60])
    } else if n == "minecraft:stripped_spruce_log"@ {
        Some([75, 55, 35])
    } else if n == "minecraft:stripped_birch_log"@ {
        Some([235, 233, 225])
    } else if n == "minecraft:stripped_jungle_log"@ {
        Some([150, 130, 70])
    } else if n == "minecraft:stripped_acacia_log"@ {
        Some([160, 115, 70])
    } else if n == "minecraft:stripped_dark_oak_log"@ {
        Some([65, 48, 25])
    } else if n == "minecraft:stripped_mangrove_log"@ {
        Some([140, 105, 82])
    } else if n == "minecraft:stripped_cherry_log"@ {
        Some([165, 118, 108])
    } else if n == "minecraft:stripped_pale_oak_log"@ {
        Some([195, 182, 135])
    } else if n == "minecraft:stripped_crimson_stem"@ {
        Some([140, 60, 70])
    } else if n == "minecraft:stripped_warped_stem"@ {
        Some([50, 155, 155])
    } else if n == "minecraft:stripped_oak_wood"@ {
        Some([125, 100, 55])
    } else if n == "minecraft:stripped_spruce_wood"@ {
        Some([70, 52, 32])
    } else if n == "minecraft:stripped_birch_wood"@ {
        Some([232, 230, 222])
    } else if n == "minecraft:stripped_jungle_wood"@ {
        Some([145, 125, 65])
    } else if n == "minecraft:stripped_acacia_wood"@ {
        Some([155, 110, 65])
    } else if n == "minecraft:stripped_dark_oak_wood"@ {
        Some([60, 45, 22])
    } else if n == "minecraft:stripped_mangrove_wood"@ {
        Some([135, 100, 78])
    } else if n == "minecraft:stripped_cherry_wood"@ {
        Some([160, 115, 102])
    } else if n == "minecraft:stripped_pale_oak_wood"@ {
        Some([190, 178, 130])
    } else if n == "minecraft:stripped_crimson_hyphae"@ {
        Some([135, 55, 65])
    } else if n == "minecraft:stripped_warped_hyphae"@ {
        Some([45, 150, 150])
    } else if n == "minecraft:oak_leaves"@ {
        Some([55, 120, 35])
    } else if n == "minecraft:spruce_leaves"@ {
        Some([40, 90, 30])
    } else if n == "minecraft:birch_leaves"@ {
        Some([70, 140, 50])
    } else if n == "minecraft:jungle_leaves"@ {
        Some([45, 105, 25])
    } else if n == "minecraft:acacia_leaves"@ {
        Some([80, 145, 50])
    } else if n == "minecraft:dark_oak_leaves"@ {
        Some([50, 110, 30])
    } else if n == "minecraft:mangrove_leaves"@ {
        Some([50, 115, 40])
    } else if n == "minecraft:cherry_leaves"@ {
        Some([220, 150, 170])
    } else if n == "minecraft:pale_oak_leaves"@ {
        Some([100, 160, 80])
    } else if n == "minecraft:azalea_leaves"@ {
        Some([60, 130, 45])
    } else if n == "minecraft:flowering_azalea_leaves"@ {
        Some([220, 140, 165])
    } else if n == "minecraft:spore_blossom"@ {
        Some([180, 100, 80])
    } else if n == "minecraft:short_grass"@ {
        Some([80, 150, 50])
    } else if n == "minecraft:tall_grass"@ {
        Some([80, 150, 50])
    } else if n == "minecraft:fern"@ {
        Some([75, 145, 45])
    } else if n == "minecraft:large_fern"@ {
        Some([75, 145, 45])
    } else if n == "minecraft:dandelion"@ {
        Some([255, 220, 50])
    } else if n == "minecraft:poppy"@ {
        Some([220, 50, 50])
    } else if n == "minecraft:blue_orchid"@ {
        Some([100, 80, 220])
    } else if n == "minecraft:allium"@ {
        Some([180, 130, 220])
    } else if n == "minecraft:azure_bluet"@ {
        Some([80, 100, 200])
    } else if n == "minecraft:red_tulip"@ {
        Some([220, 50, 50])
    } else if n == "minecraft:orange_tulip"@ {
        Some([240, 130, 40])
    } else if n == "minecraft:white_tulip"@ {
        Some([240, 240, 240])
    } else if n == "minecraft:pink_tulip"@ {
        Some([240, 150, 200])
    } else if n == "minecraft:oxeye_daisy"@ {
        Some([250, 250, 250])
    } else if n == "minecraft:cornflower"@ {
        Some([80, 100, 220])
    } else if n == "minecraft:lily_of_the_valley"@ {
        Some([240, 240, 200])
    } else if n == "minecraft:wither_rose"@ {
        Some([80, 40, 60])
    } else if n == "minecraft:sunflower"@ {
        Some([250, 200, 50])
    } else if n == "minecraft:lily_pad"@ {
        Some([60, 140, 50])
    } else if n == "minecraft:seagrass"@ {
        Some([50, 160, 80])
    } else if n == "minecraft:kelp"@ {
        Some([50, 150, 70])
    } else if n == "minecraft:sugar_cane"@ {
        Some([140, 180, 80])
    } else if n == "minecraft:cactus"@ {
        Some([60, 130, 50])
    } else if n == "minecraft:sweet_berries"@ {
        Some([180, 50, 60])
    } else if n == "minecraft:glow_berries"@ {
        Some([220, 100, 130])
    } else if n == "minecraft:glow_lichen"@ {
        Some([100, 220, 150])
    } else if n == "minecraft:hanging_roots"@ {
        Some([100, 70, 50])
    } else if n == "minecraft:big_dripleaf"@ {
        Some([60, 140, 50])
    } else if n == "minecraft:small_dripleaf"@ {
        Some([60, 140, 50])
    } else if n == "minecraft:azalea"@ {
        Some([60, 130, 45])
    } else if n == "minecraft:flowering_azalea"@ {
        Some([220, 140, 165])
    } else if n == "minecraft:vines"@ {
        Some([50, 120, 40])
    } else if n == "minecraft:brown_mushroom"@ {
        Some([180, 150, 100])
    } else if n == "minecraft:red_mushroom"@ {
        Some([200, 50, 50])
    } else if n == "minecraft:mushroom_stem"@ {
        Some([220, 210, 180])
    } else if n == "minecraft:crimson_fungus"@ {
        Some([180, 70, 80])
    } else if n == "minecraft:warped_fungus"@ {
        Some([80, 180, 170])
    } else if n == "minecraft:red_mushroom_block"@ {
        Some([200, 60, 50])
    } else if n == "minecraft:brown_mushroom_block"@ {
        Some([180, 150, 100])
    } else if n == "minecraft:pale_mushroom_block"@ {
        Some([200, 200, 170])
    } else if n == "minecraft:turtle_egg"@ {
        Some([180, 160, 140])
    } else if n == "minecraft:wheat"@ {
        Some([180, 160, 80])
    } else if n == "minecraft:carrots"@ {
        Some([220, 120, 40])
    } else if n == "minecraft:potatoes"@ {
        Some([180, 160, 100])
    } else if n == "minecraft:beetroot"@ {
        Some([180, 60, 80])
    } else if n == "minecraft:melon"@ {
        Some([100, 180, 50])
    } else if n == "minecraft:melon_stem"@ {
        Some([80, 140, 50])
    } else if n == "minecraft:pumpkin"@ {
        Some([220, 140, 40])
    } else if n == "minecraft:carved_pumpkin"@ {
        Some([220, 140, 40])
    } else if n == "minecraft:lit_pumpkin"@ {
        Some([240, 180, 60])
    } else if n == "minecraft:pumpkin_stem"@ {
        Some([80, 140, 50])
    } else if n == "minecraft:honey_block"@ {
        Some([220, 180, 60])
    } else if n == "minecraft:honeycomb_block"@ {
        Some([230, 190, 70])
    } else if n == "minecraft:dried_kelp_block"@ {
        Some([60, 80, 40])
    } else if n == "minecraft:hay_block"@ {
        Some([190, 170, 70])
    } else if n == "minecraft:coal_ore"@ {
        Some([100, 100, 100])
    } else if n == "minecraft:deepslate_coal_ore"@ {
        Some([55, 55, 55])
    } else if n == "minecraft:iron_ore"@ {
        Some([175, 155, 140])
    } else if n == "minecraft:deepslate_iron_ore"@ {
        Some([100, 90, 80])
    } else if n == "minecraft:copper_ore"@ {
        Some([160, 110, 80])
    } else if n == "minecraft:deepslate_copper_ore"@ {
        Some([100, 70, 50])
    } else if n == "minecraft:gold_ore"@ {
        Some([240, 210, 80])
    } else if n == "minecraft:deepslate_gold_ore"@ {
        Some([120, 105, 40])
    } else if n == "minecraft:redstone_ore"@ {
        Some([120, 120, 120])
    } else if n == "minecraft:deepslate_redstone_ore"@ {
        Some([70, 70, 70])
    } else if n == "minecraft:lapis_ore"@ {
        Some([80, 80, 180])
    } else if n == "minecraft:deepslate_lapis_ore"@ {
        Some([50, 50, 100])
    } else if n == "minecraft:diamond_ore"@ {
        Some([80, 220, 220])
    } else if n == "minecraft:deepslate_diamond_ore"@ {
        Some([50, 110, 110])
    } else if n == "minecraft:emerald_ore"@ {
        Some([80, 200, 100])
    } else if n == "minecraft:deepslate_emerald_ore"@ {
        Some([50, 100, 60])
    } else if n == "minecraft:nether_gold_ore"@ {
        Some([220, 190, 70])
    } else if n == "minecraft:coal_block"@ {
        Some([40, 40, 40])
    } else if n == "minecraft:iron_block"@ {
        Some([220, 220, 220])
    } else if n == "minecraft:copper_block"@ {
        Some([200, 120, 80])
    } else if n == "minecraft:gold_block"@ {
        Some([250, 210, 60])
    } else if n == "minecraft:diamond_block"@ {
        Some([80, 240, 240])
    } else if n == "minecraft:emerald_block"@ {
        Some([50, 220, 80])
    } else if n == "minecraft:redstone_block"@ {
        Some([220, 30, 20])
    } else if n == "minecraft:lapis_block"@ {
        Some([40, 50, 180])
    } else if n == "minecraft:netherite_block"@ {
        Some([70, 60, 60])
    } else if n == "minecraft:raw_iron_block"@ {
        Some([180, 160, 140])
    } else if n == "minecraft:raw_copper_block"@ {
        Some([180, 100, 60])
    } else if n == "minecraft:raw_gold_block"@ {
        Some([230, 190, 60])
    } else if n == "minecraft:exposed_copper"@ {
        Some([180, 160, 100])
    } else if n == "minecraft:weathered_copper"@ {
        Some([120, 180, 140])
    } else if n == "minecraft:oxidized_copper"@ {
        Some([80, 180, 140])
    } else if n == "minecraft:chiseled_copper"@ {
        Some([200, 120, 80])
    } else if n == "minecraft:cut_copper"@ {
        Some([200, 120, 80])
    } else if n == "minecraft:exposed_chiseled_copper"@ {
        Some([180, 160, 100])
    } else if n == "minecraft:exposed_cut_copper"@ {
        Some([180, 160, 100])
    } else if n == "minecraft:weathered_chiseled_copper"@ {
        Some([120, 180, 140])
    } else if n == "minecraft:weathered_cut_copper"@ {
        Some([120, 180, 140])
    } else if n == "minecraft:oxidized_chiseled_copper"@ {
        Some([80, 180, 140])
    } else if n == "minecraft:oxidized_cut_copper"@ {
        Some([80, 180, 140])
    } else if n == "minecraft:prismarine"@ {
        Some([90, 190, 180])
    } else if n == "minecraft:prismarine_bricks"@ {
        Some([95, 195, 185])
    } else if n == "minecraft:dark_prismarine"@ {
        Some([60, 140, 130])
    } else if n == "minecraft:dark_prismarine_bricks"@ {
        Some([65, 145, 135])
    } else if n == "minecraft:sea_lantern"@ {
        Some([180, 240, 230])
    } else if n == "minecraft:sponge"@ {
        Some([220, 220, 100])
    } else if n == "minecraft:wet_sponge"@ {
        Some([180, 190, 80])
    } else if n == "minecraft:terracotta"@ {
        Some([152, 92, 69])
    } else if n == "minecraft:white_terracotta"@ {
        Some([230, 220, 215])
    } else if n == "minecraft:orange_terracotta"@ {
        Some([235, 150, 60])
    } else if n == "minecraft:magenta_terracotta"@ {
        Some([210, 100, 180])
    } else if n == "minecraft:light_blue_terracotta"@ {
        Some([100, 170, 230])
    } else if n == "minecraft:yellow_terracotta"@ {
        Some([230, 210, 50])
    } else if n == "minecraft:lime_terracotta"@ {
        Some([140, 210, 50])
    } else if n == "minecraft:pink_terracotta"@ {
        Some([235, 170, 190])
    } else if n == "minecraft:gray_terracotta"@ {
        Some([95, 95, 95])
    } else if n == "minecraft:light_gray_terracotta"@ {
        Some([170, 170, 170])
    } else if n == "minecraft:cyan_terracotta"@ {
        Some([90, 210, 210])
    } else if n == "minecraft:purple_terracotta"@ {
        Some([150, 80, 200])
    } else if n == "minecraft:blue_terracotta"@ {
        Some([70, 100, 220])
    } else if n == "minecraft:brown_terracotta"@ {
        Some([110, 75, 50])
    } else if n == "minecraft:green_terracotta"@ {
        Some([90, 150, 60])
    } else if n == "minecraft:red_terracotta"@ {
        Some([210, 80, 60])
    } else if n == "minecraft:black_terracotta"@ {
        Some([45, 45, 45])
    } else if n == "minecraft:clay"@ {
        Some([160, 170, 190])
    } else if n == "minecraft:white_wool"@ {
        Some([240, 240, 240])
    } else if n == "minecraft:orange_wool"@ {
        Some([240, 150, 50])
    } else if n == "minecraft:magenta_wool"@ {
        Some([220, 100, 190])
    } else if n == "minecraft:light_blue_wool"@ {
        Some([110, 180, 240])
    } else if n == "minecraft:yellow_wool"@ {
        Some([240, 220, 50])
    } else if n == "minecraft:lime_wool"@ {
        Some([150, 220, 50])
    } else if n == "minecraft:pink_wool"@ {
        Some([240, 170, 200])
    } else if n == "minecraft:gray_wool"@ {
        Some([100, 100, 100])
    } else if n == "minecraft:light_gray_wool"@ {
        Some([180, 180, 180])
    } else if n == "minecraft:cyan_wool"@ {
        Some([100, 220, 220])
    } else if n == "minecraft:purple_wool"@ {
        Some([160, 90, 210])
    } else if n == "minecraft:blue_wool"@ {
        Some([80, 110, 230])
    } else if n == "minecraft:brown_wool"@ {
        Some([120, 85, 55])
    } else if n == "minecraft:green_wool"@ {
        Some([95, 155, 65])
    } else if n == "minecraft:red_wool"@ {
        Some([220, 80, 60])
    } else if n == "minecraft:black_wool"@ {
        Some([50, 50, 50])
    } else if n == "minecraft:glass"@ {
        Some([190, 224, 235])
    } else if n == "minecraft:white_stained_glass"@ {
        Some([245, 245, 245])
    } else if n == "minecraft:orange_stained_glass"@ {
        Some([240, 150, 50])
    } else if n == "minecraft:magenta_stained_glass"@ {
        Some([220, 100, 190])
    } else if n == "minecraft:light_blue_stained_glass"@ {
        Some([110, 180, 240])
    } else if n == "minecraft:yellow_stained_glass"@ {
        Some([240, 220, 50])
    } else if n == "minecraft:lime_stained_glass"@ {
        Some([150, 220, 50])
    } else if n == "minecraft:pink_stained_glass"@ {
        Some([240, 170, 200])
    } else if n == "minecraft:gray_stained_glass"@ {
        Some([100, 100, 100])
    } else if n == "minecraft:light_gray_stained_glass"@ {
        Some([180, 180, 180])
    } else if n == "minecraft:cyan_stained_glass"@ {
        Some([100, 220, 220])
    } else if n == "minecraft:purple_stained_glass"@ {
        Some([160, 90, 210])
    } else if n == "minecraft:blue_stained_glass"@ {
        Some([80, 110, 230])
    } else if n == "minecraft:brown_stained_glass"@ {
        Some([120, 85, 55])
    } else if n == "minecraft:green_stained_glass"@ {
        Some([95, 155, 65])
    } else if n == "minecraft:red_stained_glass"@ {
        Some([220, 80, 60])
    } else if n == "minecraft:black_stained_glass"@ {
        Some([50, 50, 50])
    } else if n == "minecraft:white_concrete"@ {
        Some([240, 240, 240])
    } else if n == "minecraft:orange_concrete"@ {
        Some([240, 150, 50])
    } else if n == "minecraft:magenta_concrete"@ {
        Some([220, 100, 190])
    } else if n == "minecraft:light_blue_concrete"@ {
        Some([110, 180, 240])
    } else if n == "minecraft:yellow_concrete"@ {
        Some([240, 220, 50])
    } else if n == "minecraft:lime_concrete"@ {
        Some([150, 220, 50])
    } else if n == "minecraft:pink_concrete"@ {
        Some([240, 170, 200])
    } else if n == "minecraft:gray_concrete"@ {
        Some([100, 100, 100])
    } else if n == "minecraft:light_gray_concrete"@ {
        Some([180, 180, 180])
    } else if n == "minecraft:cyan_concrete"@ {
        Some([100, 220, 220])
    } else if n == "minecraft:purple_concrete"@ {
        Some([160, 90, 210])
    } else if n == "minecraft:blue_concrete"@ {
        Some([80, 110, 230])
    } else if n == "minecraft:brown_concrete"@ {
        Some([120, 85, 55])
    } else if n == "minecraft:green_concrete"@ {
        Some([95, 155, 65])
    } else if n == "minecraft:red_concrete"@ {
        Some([220, 80, 60])
    } else if n == "minecraft:black_concrete"@ {
        Some([50, 50, 50])
    } else if n == "minecraft:white_concrete_powder"@ {
        Some([235, 235, 235])
    } else if n == "minecraft:orange_concrete_powder"@ {
        Some([235, 145, 45])
    } else if n == "minecraft:magenta_concrete_powder"@ {
        Some([215, 95, 185])
    } else if n == "minecraft:light_blue_concrete_powder"@ {
        Some([105, 175, 235])
    } else if n == "minecraft:yellow_concrete_powder"@ {
        Some([235, 215, 45])
    } else if n == "minecraft:lime_concrete_powder"@ {
        Some([145, 215, 45])
    } else if n == "minecraft:pink_concrete_powder"@ {
        Some([235, 165, 195])
    } else if n == "minecraft:gray_concrete_powder"@ {
        Some([95, 95, 95])
    } else if n == "minecraft:light_gray_concrete_powder"@ {
        Some([175, 175, 175])
    } else if n == "minecraft:cyan_concrete_powder"@ {
        Some([95, 215, 215])
    } else if n == "minecraft:purple_concrete_powder"@ {
        Some([155, 85, 205])
    } else if n == "minecraft:blue_concrete_powder"@ {
        Some([75, 105, 225])
    } else if n == "minecraft:brown_concrete_powder"@ {
        Some([115, 80, 50])
    } else if n == "minecraft:green_concrete_powder"@ {
        Some([90, 150, 60])
    } else if n == "minecraft:red_concrete_powder"@ {
        Some([215, 75, 55])
    } else if n == "minecraft:black_concrete_powder"@ {
        Some([45, 45, 45])
    } else if n == "minecraft:glowstone"@ {
        Some([250, 218, 138])
    } else if n == "minecraft:redstone_lamp"@ {
        Some([200, 80, 50])
    } else if n == "minecraft:lit_redstone_lamp"@ {
        Some([250, 120, 60])
    } else if n == "minecraft:beacon"@ {
        Some([150, 220, 240])
    } else if n == "minecraft:lantern"@ {
        Some([220, 190, 100])
    } else if n == "minecraft:soul_lantern"@ {
        Some([100, 200, 220])
    } else if n == "minecraft:torch"@ {
        Some([250, 200, 100])
    } else if n == "minecraft:soul_torch"@ {
        Some([100, 200, 220])
    } else if n == "minecraft:campfire"@ {
        Some([220, 120, 40])
    } else if n == "minecraft:soul_campfire"@ {
        Some([100, 180, 200])
    } else if n == "minecraft:sea_pickle"@ {
        Some([120, 200, 100])
    } else if n == "minecraft:bone_block"@ {
        Some([230, 228, 210])
    } else if n == "minecraft:slime"@ {
        Some([96, 146, 60])
    } else if n == "minecraft:bookshelf"@ {
        Some([130, 95, 55])
    } else if n == "minecraft:scaffolding"@ {
        Some([160, 140, 80])
    } else if n == "minecraft:target"@ {
        Some([200, 200, 200])
    } else if n == "minecraft:amethyst_block"@ {
        Some([150, 100, 200])
    } else if n == "minecraft:budding_amethyst"@ {
        Some([160, 110, 210])
    } else if n == "minecraft:amethyst_cluster"@ {
        Some([150, 100, 200])
    } else if n == "minecraft:small_amethyst_bud"@ {
        Some([150, 100, 200])
    } else if n == "minecraft:medium_amethyst_bud"@ {
        Some([150, 100, 200])
    } else if n == "minecraft:large_amethyst_bud"@ {
        Some([150, 100, 200])
    } else if n == "minecraft:sculk"@ {
        Some([10, 20, 30])
    } else if n == "minecraft:sculk_catalyst"@ {
        Some([15, 25, 35])
    } else if n == "minecraft:sculk_shrieker"@ {
        Some([15, 25, 35])
    } else if n == "minecraft:sculk_vein"@ {
        Some([10, 20, 30])
    } else if n == "minecraft:sculk_sensor"@ {
        Some([15, 25, 35])
    } else if n == "minecraft:echo_shard_block"@ {
        Some([200, 200, 210])
    } else if n == "minecraft:redstone_torch"@ {
        Some([220, 50, 30])
    } else if n == "minecraft:lit_redstone_torch"@ {
        Some([250, 80, 40])
    } else if n == "minecraft:repeater"@ {
        Some([120, 120, 120])
    } else if n == "minecraft:comparator"@ {
        Some([120, 120, 120])
    } else if n == "minecraft:barrier"@ {
        Some([128, 128, 128])
    } else if n == "minecraft:light_block"@ {
        Some([255, 255, 255])
    } else {
        None
    }
}

/// FNV-1a offset basis.
pub const FNV_OFFSET: u64 = 0xcbf2_9ce4_8422_2325;

/// FNV-1a prime.
pub const FNV_PRIME: u64 = 0x0000_0100_0000_01b3;

/// 64-bit FNV-1a hash of a byte string.
pub open spec fn fnv1a(bytes: Seq<u8>) -> u64
    decreases bytes.len(),
{
    if bytes.len() == 0 {
        FNV_OFFSET
    } else {
        ((fnv1a(bytes.drop_last()) ^ (bytes.last() as u64)) as int * FNV_PRIME as int
            % 0x1_0000_0000_0000_0000) as u64
    }
}

/// The fallback color of a block name: three channels taken from successive
/// bytes of its FNV-1a hash, each in `30..210`.
pub open spec fn fallback_color(bytes: Seq<u8>) -> [u8; 3] {
    let h = fnv1a(bytes);
    [(30 + h % 180) as u8, (30 + (h / 0x100) % 180) as u8, (30 + (h / 0x1_0000) % 180) as u8]
}

/// The color of a block: its palette color when it has one, else the
/// fallback color of its UTF-8 bytes.
pub open spec fn color_of_name(n: Seq<char>) -> [u8; 3] {
    match palette_color(n) {
        Some(c) => c,
        None => fallback_color(encode_utf8(n)),
    }
}

/// Map a Minecraft block name to a top-down view color.
///
/// Well-known blocks get hand-picked colors; anything else falls back to a
/// stable color derived from a hash of the name.
pub fn block_color(name: &str) -> (out: [u8; 3])
    ensures
        out == color_of_name(name@),
        palette_color(name@) is None ==> 30 <= out[0] < 210 && 30 <= out[1] < 210 && 30 <= out[2] < 210,
{
    if str_eq(name, "minecraft:grass_block") {
        return [106, 170, 64];
    }
    if str_eq(name, "minecraft:grass_block_fern") {
        return [106, 170, 64];
    }
    if str_eq(name, "minecraft:dirt") {
        return [134, 96, 67];
    }
    if str_eq(name, "minecraft:dirt_with_roots") {
        return [124, 90, 60];
    }
    if str_eq(name, "minecraft:coarse_dirt") {
        return [134, 96, 67];
    }
    if str_eq(name, "minecraft:rooted_dirt") {
        return [124, 90, 60];
    }
    if str_eq(name, "minecraft:podzol") {
        return [95, 70, 42];
    }
    if str_eq(name, "minecraft:podzol_snow") {
        return [240, 245, 250];
    }
    if str_eq(name, "minecraft:mycelium") {
        return [120, 104, 120];
    }
    if str_eq(name, "minecraft:moss_block") {
        return [80, 130, 60];
    }
    if str_eq(name, "minecraft:moss_carpet") {
        return [80, 130, 60];
    }
    if str_eq(name, "minecraft:mud") {
        return [78, 60, 46];
    }
    if str_eq(name, "minecraft:mud_bricks") {
        return [115, 85, 62];
    }
    if str_eq(name, "minecraft:packed_mud") {
        return [90, 70, 55];
    }
    if str_eq(name, "minecraft:stone") {
        return [125, 125, 125];
    }
    if str_eq(name, "minecraft:cobblestone") {
        return [118, 118, 118];
    }
    if str_eq(name, "minecraft:mossy_cobblestone") {
        return [100, 110, 95];
    }
    if str_eq(name, "minecraft:stone_bricks") {
        return [125, 125, 125];
    }
    if str_eq(name, "minecraft:mossy_stone_bricks") {
        return [105, 115, 100];
    }
    if str_eq(name, "minecraft:cracked_stone_bricks") {
        return [120, 120, 120];
    }
    if str_eq(name, "minecraft:chiseled_stone_bricks") {
        return [130, 130, 130];
    }
    if str_eq(name, "minecraft:smooth_stone") {
        return [140, 140, 140];
    }
    if str_eq(name, "minecraft:granite") {
        return [138, 73, 56];
    }
    if str_eq(name, "minecraft:polished_granite") {
        return [150, 80, 60];
    }
    if str_eq(name, "minecraft:smooth_granite") {
        return [155, 85, 65];
    }
    if str_eq(name, "minecraft:diorite") {
        return [200, 200, 200];
    }
    if str_eq(name, "minecraft:polished_diorite") {
        return [210, 210, 210];
    }
    if str_eq(name, "minecraft:smooth_diorite") {
        return [215, 215, 215];
    }
    if str_eq(name, "minecraft:andesite") {
        return [136, 136, 136];
    }
    if str_eq(name, "minecraft:polished_andesite") {
        return [145, 145, 145];
    }
    if str_eq(name, "minecraft:smooth_andesite") {
        return [150, 150, 150];
    }
    if str_eq(name, "minecraft:deepslate") {
        return [67, 67, 67];
    }
    if str_eq(name, "minecraft:cobbled_deepslate") {
        return [72, 72, 72];
    }
    if str_eq(name, "minecraft:polished_deepslate") {
        return [80, 80, 80];
    }
    if str_eq(name, "minecraft:deepslate_bricks") {
        return [70, 70, 70];
    }
    if str_eq(name, "minecraft:deepslate_tiles") {
        return [65, 65, 65];
    }
    if str_eq(name, "minecraft:mossy_deepslate") {
        return [55, 65, 55];
    }
    if str_eq(name, "minecraft:cracked_deepslate_bricks") {
        return [65, 65, 65];
    }
    if str_eq(name, "minecraft:cracked_deepslate_tiles") {
        return [60, 60, 60];
    }
    if str_eq(name, "minecraft:chiseled_deepslate") {
        return [75, 75, 75];
    }
    if str_eq(name, "minecraft:reinforced_deepslate") {
        return [70, 70, 70];
    }
    if str_eq(name, "minecraft:tuff") {
        return [95, 95, 95];
    }
    if str_eq(name, "minecraft:tuff_bricks") {
        return [90, 90, 90];
    }
    if str_eq(name, "minecraft:calcite") {
        return [233, 231, 226];
    }
    if str_eq(name, "minecraft:dripstone_block") {
        return [170, 145, 120];
    }
    if str_eq(name, "minecraft:pointed_dripstone") {
        return [165, 140, 115];
    }
    if str_eq(name, "minecraft:basalt") {
        return [110, 108, 108];
    }
    if str_eq(name, "minecraft:polished_basalt") {
        return [115, 113, 113];
    }
    if str_eq(name, "minecraft:smooth_basalt") {
        return [120, 118, 118];
    }
    if str_eq(name, "minecraft:bedrock") {
        return [110, 110, 110];
    }
    if str_eq(name, "minecraft:obsidian") {
        return [28, 24, 38];
    }
    if str_eq(name, "minecraft:crying_obsidian") {
        return [30, 30, 60];
    }
    if str_eq(name, "minecraft:bricks") {
        return [150, 96, 84];
    }
    if str_eq(name, "minecraft:sand") {
        return [219, 209, 160];
    }
    if str_eq(name, "minecraft:red_sand") {
        return [190, 110, 70];
    }
    if str_eq(name, "minecraft:sandstone") {
        return [217, 209, 158];
    }
    if str_eq(name, "minecraft:smooth_sandstone") {
        return [220, 212, 165];
    }
    if str_eq(name, "minecraft:chiseled_sandstone") {
        return [215, 207, 155];
    }
    if str_eq(name, "minecraft:cut_sandstone") {
        return [218, 210, 160];
    }
    if str_eq(name, "minecraft:red_sandstone") {
        return [189, 110, 60];
    }
    if str_eq(name, "minecraft:smooth_red_sandstone") {
        return [192, 115, 65];
    }
    if str_eq(name, "minecraft:chiseled_red_sandstone") {
        return [187, 108, 58];
    }
    if str_eq(name, "minecraft:cut_red_sandstone") {
        return [190, 112, 62];
    }
    if str_eq(name, "minecraft:gravel") {
        return [125, 125, 125];
    }
    if str_eq(name, "minecraft:snow") {
        return [247, 250, 253];
    }
    if str_eq(name, "minecraft:snow_block") {
        return [245, 248, 252];
    }
    if str_eq(name, "minecraft:powder_snow") {
        return [240, 245, 250];
    }
    if str_eq(name, "minecraft:ice") {
        return [126, 175, 232];
    }
    if str_eq(name, "minecraft:packed_ice") {
        return [145, 190, 231];
    }
    if str_eq(name, "minecraft:blue_ice") {
        return [98, 162, 232];
    }
    if str_eq(name, "minecraft:frosted_ice") {
        return [130, 180, 235];
    }
    if str_eq(name, "minecraft:water") {
        return [62, 121, 201];
    }
    if str_eq(name, "minecraft:flowing_water") {
        return [62, 121, 201];
    }
    if str_eq(name, "minecraft:lava") {
        return [243, 118, 53];
    }
    if str_eq(name, "minecraft:flowing_lava") {
        return [243, 118, 53];
    }
    if str_eq(name, "minecraft:netherrack") {
        return [135, 58, 52];
    }
    if str_eq(name, "minecraft:nether_bricks") {
        return [45, 30, 30];
    }
    if str_eq(name, "minecraft:red_nether_bricks") {
        return [100, 40, 35];
    }
    if str_eq(name, "minecraft:cracked_nether_bricks") {
        return [40, 28, 28];
    }
    if str_eq(name, "minecraft:chiseled_nether_bricks") {
        return [50, 35, 35];
    }
    if str_eq(name, "minecraft:quartz_block") {
        return [234, 228, 221];
    }
    if str_eq(name, "minecraft:smooth_quartz") {
        return [240, 235, 228];
    }
    if str_eq(name, "minecraft:quartz_bricks") {
        return [230, 224, 217];
    }
    if str_eq(name, "minecraft:chiseled_quartz_block") {
        return [235, 230, 223];
    }
    if str_eq(name, "minecraft:quartz_pillar") {
        return [232, 226, 219];
    }
    if str_eq(name, "minecraft:soul_sand") {
        return [120, 110, 105];
    }
    if str_eq(name, "minecraft:soul_soil") {
        return [110, 100, 95];
    }
    if str_eq(name, "minecraft:magma_block") {
        return [190, 60, 30];
    }
    if str_eq(name, "minecraft:nether_wart_block") {
        return [96, 32, 110];
    }
    if str_eq(name, "minecraft:warped_wart_block") {
        return [120, 210, 195];
    }
    if str_eq(name, "minecraft:blackstone") {
        return [42, 42, 42];
    }
    if str_eq(name, "minecraft:polished_blackstone") {
        return [50, 50, 50];
    }
    if str_eq(name, "minecraft:chiseled_blackstone") {
        return [48, 48, 48];
    }
    if str_eq(name, "minecraft:polished_blackstone_bricks") {
        return [46, 46, 46];
    }
    if str_eq(name, "minecraft:gilded_blackstone") {
        return [52, 52, 55];
    }
    if str_eq(name, "minecraft:ancient_debris") {
        return [100, 75, 75];
    }
    if str_eq(name, "minecraft:crimson_nylium") {
        return [160, 80, 120];
    }
    if str_eq(name, "minecraft:warped_nylium") {
        return [100, 180, 170];
    }
    if str_eq(name, "minecraft:crimson_roots") {
        return [140, 70, 100];
    }
    if str_eq(name, "minecraft:warped_roots") {
        return [100, 170, 160];
    }
    if str_eq(name, "minecraft:shroomlight") {
        return [220, 130, 100];
    }
    if str_eq(name, "minecraft:weeping_vines") {
        return [160, 60, 100];
    }
    if str_eq(name, "minecraft:twisting_vines") {
        return [100, 180, 170];
    }
    if str_eq(name, "minecraft:nether_sprouts") {
        return [140, 80, 110];
    }
    if str_eq(name, "minecraft:nether_wart") {
        return [200, 40, 40];
    }
    if str_eq(name, "minecraft:chain") {
        return [80, 80, 80];
    }
    if str_eq(name, "minecraft:respawn_anchor") {
        return [20, 20, 20];
    }
    if str_eq(name, "minecraft:lodestone") {
        return [60, 60, 60];
    }
    if str_eq(name, "minecraft:resin_block") {
        return [200, 150, 100];
    }
    if str_eq(name, "minecraft:resin_clumps") {
        return [200, 150, 100];
    }
    if str_eq(name, "minecraft:end_stone") {
        return [221, 219, 165];
    }
    if str_eq(name, "minecraft:end_stone_bricks") {
        return [210, 208, 155];
    }
    if str_eq(name, "minecraft:purpur_block") {
        return [197, 168, 220];
    }
    if str_eq(name, "minecraft:purpur_pillar") {
        return [200, 175, 225];
    }
    if str_eq(name, "minecraft:purpur_stairs") {
        return [195, 165, 218];
    }
    if str_eq(name, "minecraft:chorus_plant") {
        return [180, 160, 210];
    }
    if str_eq(name, "minecraft:chorus_flower") {
        return [200, 180, 230];
    }
    if str_eq(name, "minecraft:end_rod") {
        return [220, 230, 200];
    }
    if str_eq(name, "minecraft:ender_chest") {
        return [30, 30, 50];
    }
    if str_eq(name, "minecraft:dragon_egg") {
        return [40, 60, 40];
    }
    if str_eq(name, "minecraft:oak_planks") {
        return [162, 130, 78];
    }
    if str_eq(name, "minecraft:spruce_planks") {
        return [112, 84, 50];
    }
    if str_eq(name, "minecraft:birch_planks") {
        return [192, 175, 121];
    }
    if str_eq(name, "minecraft:jungle_planks") {
        return [160, 134, 68];
    }
    if str_eq(name, "minecraft:acacia_planks") {
        return [168, 121, 53];
    }
    if str_eq(name, "minecraft:dark_oak_planks") {
        return [66, 43, 20];
    }
    if str_eq(name, "minecraft:mangrove_planks") {
        return [145, 104, 86];
    }
    if str_eq(name, "minecraft:cherry_planks") {
        return [185, 143, 133];
    }
    if str_eq(name, "minecraft:pale_oak_planks") {
        return [190, 178, 124];
    }
    if str_eq(name, "minecraft:crimson_planks") {
        return [148, 60, 68];
    }
    if str_eq(name, "minecraft:warped_planks") {
        return [50, 150, 150];
    }
    if str_eq(name, "minecraft:bamboo_planks") {
        return [200, 190, 100];
    }
    if str_eq(name, "minecraft:bamboo_mosaic") {
        return [200, 195, 105];
    }
    if str_eq(name, "minecraft:oak_log") {
        return [104, 82, 50];
    }
    if str_eq(name, "minecraft:spruce_log") {
        return [55, 40, 25];
    }
    if str_eq(name, "minecraft:birch_log") {
        return [226, 224, 216];
    }
    if str_eq(name, "minecraft:jungle_log") {
        return [134, 114, 62];
    }
    if str_eq(name, "minecraft:acacia_log") {
        return [148, 103, 62];
    }
    if str_eq(name, "minecraft:dark_oak_log") {
        return [46, 35, 16];
    }
    if str_eq(name, "minecraft:mangrove_log") {
        return [120, 90, 70];
    }
    if str_eq(name, "minecraft:cherry_log") {
        return [150, 105, 95];
    }
    if str_eq(name, "minecraft:pale_oak_log") {
        return [180, 165, 120];
    }
    if str_eq(name, "minecraft:crimson_stem") {
        return [130, 50, 60];
    }
    if str_eq(name, "minecraft:warped_stem") {
        return [40, 140, 140];
    }
    if str_eq(name, "minecraft:bamboo") {
        return [180, 170, 90];
    }
    if str_eq(name, "minecraft:bamboo_block") {
        return [180, 170, 90];
    }
    if str_eq(name, "minecraft:chiseled_bamboo_block") {
        return [175, 165, 85];
    }
    if str_eq(name, "minecraft:oak_wood") {
        return [95, 75, 45];
    }
    if str_eq(name, "minecraft:spruce_wood") {
        return [50, 38, 22];
    }
    if str_eq(name, "minecraft:birch_wood") {
        return [220, 218, 210];
    }
    if str_eq(name, "minecraft:jungle_wood") {
        return [130, 110, 58];
    }
    if str_eq(name, "minecraft:acacia_wood") {
        return [144, 100, 58];
    }
    if str_eq(name, "minecraft:dark_oak_wood") {
        return [42, 33, 15];
    }
    if str_eq(name, "minecraft:mangrove_wood") {
        return [115, 85, 65];
    }
    if str_eq(name, "minecraft:cherry_wood") {
        return [145, 100, 90];
    }
    if str_eq(name, "minecraft:pale_oak_wood") {
        return [175, 160, 115];
    }
    if str_eq(name, "minecraft:crimson_hyphae") {
        return [125, 48, 58];
    }
    if str_eq(name, "minecraft:warped_hyphae") {
        return [38, 135, 135];
    }
    if str_eq(name, "minecraft:stripped_oak_log") {
        return [130, 105, 60];
    }
    if str_eq(name, "minecraft:stripped_spruce_log") {
        return [75, 55, 35];
    }
    if str_eq(name, "minecraft:stripped_birch_log") {
        return [235, 233, 225];
    }
    if str_eq(name, "minecraft:stripped_jungle_log") {
        return [150, 130, 70];
    }
    if str_eq(name, "minecraft:stripped_acacia_log") {
        return [160, 115, 70];
    }
    if str_eq(name, "minecraft:stripped_dark_oak_log") {
        return [65, 48, 25];
    }
    if str_eq(name, "minecraft:stripped_mangrove_log") {
        return [140, 105, 82];
    }
    if str_eq(name, "minecraft:stripped_cherry_log") {
        return [165, 118, 108];
    }
    if str_eq(name, "minecraft:stripped_pale_oak_log") {
        return [195, 182, 135];
    }
    if str_eq(name, "minecraft:stripped_crimson_stem") {
        return [140, 60, 70];
    }
    if str_eq(name, "minecraft:stripped_warped_stem") {
        return [50, 155, 155];
    }
    if str_eq(name, "minecraft:stripped_oak_wood") {
        return [125, 100, 55];
    }
    if str_eq(name, "minecraft:stripped_spruce_wood") {
        return [70, 52, 32];
    }
    if str_eq(name, "minecraft:stripped_birch_wood") {
        return [232, 230, 222];
    }
    if str_eq(name, "minecraft:stripped_jungle_wood") {
        return [145, 125, 65];
    }
    if str_eq(name, "minecraft:stripped_acacia_wood") {
        return [155, 110, 65];
    }
    if str_eq(name, "minecraft:stripped_dark_oak_wood") {
        return [60, 45, 22];
    }
    if str_eq(name, "minecraft:stripped_mangrove_wood") {
        return [135, 100, 78];
    }
    if str_eq(name, "minecraft:stripped_cherry_wood") {
        return [160, 115, 102];
    }
    if str_eq(name, "minecraft:stripped_pale_oak_wood") {
        return [190, 178, 130];
    }
    if str_eq(name, "minecraft:stripped_crimson_hyphae") {
        return [135, 55, 65];
    }
    if str_eq(name, "minecraft:stripped_warped_hyphae") {
        return [45, 150, 150];
    }
    if str_eq(name, "minecraft:oak_leaves") {
        return [55, 120, 35];
    }
    if str_eq(name, "minecraft:spruce_leaves") {
        return [40, 90, 30];
    }
    if str_eq(name, "minecraft:birch_leaves") {
        return [70, 140, 50];
    }
    if str_eq(name, "minecraft:jungle_leaves") {
        return [45, 105, 25];
    }
    if str_eq(name, "minecraft:acacia_leaves") {
        return [80, 145, 50];
    }
    if str_eq(name, "minecraft:dark_oak_leaves") {
        return [50, 110, 30];
    }
    if str_eq(name, "minecraft:mangrove_leaves") {
        return [50, 115, 40];
    }
    if str_eq(name, "minecraft:cherry_leaves") {
        return [220, 150, 170];
    }
    if str_eq(name, "minecraft:pale_oak_leaves") {
        return [100, 160, 80];
    }
    if str_eq(name, "minecraft:azalea_leaves") {
        return [60, 130, 45];
    }
    if str_eq(name, "minecraft:flowering_azalea_leaves") {
        return [220, 140, 165];
    }
    if str_eq(name, "minecraft:spore_blossom") {
        return [180, 100, 80];
    }
    if str_eq(name, "minecraft:short_grass") {
        return [80, 150, 50];
    }
    if str_eq(name, "minecraft:tall_grass") {
        return [80, 150, 50];
    }
    if str_eq(name, "minecraft:fern") {
        return [75, 145, 45];
    }
    if str_eq(name, "minecraft:large_fern") {
        return [75, 145, 45];
    }
    if str_eq(name, "minecraft:dandelion") {
        return [255, 220, 50];
    }
    if str_eq(name, "minecraft:poppy") {
        return [220, 50, 50];
    }
    if str_eq(name, "minecraft:blue_orchid") {
        return [100, 80, 220];
    }
    if str_eq(name, "minecraft:allium") {
        return [180, 130, 220];
    }
    if str_eq(name, "minecraft:azure_bluet") {
        return [80, 100, 200];
    }
    if str_eq(name, "minecraft:red_tulip") {
        return [220, 50, 50];
    }
    if str_eq(name, "minecraft:orange_tulip") {
        return [240, 130, 40];
    }
    if str_eq(name, "minecraft:white_tulip") {
        return [240, 240, 240];
    }
    if str_eq(name, "minecraft:pink_tulip") {
        return [240, 150, 200];
    }
    if str_eq(name, "minecraft:oxeye_daisy") {
        return [250, 250, 250];
    }
    if str_eq(name, "minecraft:cornflower") {
        return [80, 100, 220];
    }
    if str_eq(name, "minecraft:lily_of_the_valley") {
        return [240, 240, 200];
    }
    if str_eq(name, "minecraft:wither_rose") {
        return [80, 40, 60];
    }
    if str_eq(name, "minecraft:sunflower") {
        return [250, 200, 50];
    }
    if str_eq(name, "minecraft:lily_pad") {
        return [60, 140, 50];
    }
    if str_eq(name, "minecraft:seagrass") {
        return [50, 160, 80];
    }
    if str_eq(name, "minecraft:kelp") {
        return [50, 150, 70];
    }
    if str_eq(name, "minecraft:sugar_cane") {
        return [140, 180, 80];
    }
    if str_eq(name, "minecraft:cactus") {
        return [60, 130, 50];
    }
    if str_eq(name, "minecraft:sweet_berries") {
        return [180, 50, 60];
    }
    if str_eq(name, "minecraft:glow_berries") {
        return [220, 100, 130];
    }
    if str_eq(name, "minecraft:glow_lichen") {
        return [100, 220, 150];
    }
    if str_eq(name, "minecraft:hanging_roots") {
        return [100, 70, 50];
    }
    if str_eq(name, "minecraft:big_dripleaf") {
        return [60, 140, 50];
    }
    if str_eq(name, "minecraft:small_dripleaf") {
        return [60, 140, 50];
    }
    if str_eq(name, "minecraft:azalea") {
        return [60, 130, 45];
    }
    if str_eq(name, "minecraft:flowering_azalea") {
        return [220, 140, 165];
    }
    if str_eq(name, "minecraft:vines") {
        return [50, 120, 40];
    }
    if str_eq(name, "minecraft:brown_mushroom") {
        return [180, 150, 100];
    }
    if str_eq(name, "minecraft:red_mushroom") {
        return [200, 50, 50];
    }
    if str_eq(name, "minecraft:mushroom_stem") {
        return [220, 210, 180];
    }
    if str_eq(name, "minecraft:crimson_fungus") {
        return [180, 70, 80];
    }
    if str_eq(name, "minecraft:warped_fungus") {
        return [80, 180, 170];
    }
    if str_eq(name, "minecraft:red_mushroom_block") {
        return [200, 60, 50];
    }
    if str_eq(name, "minecraft:brown_mushroom_block") {
        return [180, 150, 100];
    }
    if str_eq(name, "minecraft:pale_mushroom_block") {
        return [200, 200, 170];
    }
    if str_eq(name, "minecraft:turtle_egg") {
        return [180, 160, 140];
    }
    if str_eq(name, "minecraft:wheat") {
        return [180, 160, 80];
    }
    if str_eq(name, "minecraft:carrots") {
        return [220, 120, 40];
    }
    if str_eq(name, "minecraft:potatoes") {
        return [180, 160, 100];
    }
    if str_eq(name, "minecraft:beetroot") {
        return [180, 60, 80];
    }
    if str_eq(name, "minecraft:melon") {
        return [100, 180, 50];
    }
    if str_eq(name, "minecraft:melon_stem") {
        return [80, 140, 50];
    }
    if str_eq(name, "minecraft:pumpkin") {
        return [220, 140, 40];
    }
    if str_eq(name, "minecraft:carved_pumpkin") {
        return [220, 140, 40];
    }
    if str_eq(name, "minecraft:lit_pumpkin") {
        return [240, 180, 60];
    }
    if str_eq(name, "minecraft:pumpkin_stem") {
        return [80, 140, 50];
    }
    if str_eq(name, "minecraft:honey_block") {
        return [220, 180, 60];
    }
    if str_eq(name, "minecraft:honeycomb_block") {
        return [230, 190, 70];
    }
    if str_eq(name, "minecraft:dried_kelp_block") {
        return [60, 80, 40];
    }
    if str_eq(name, "minecraft:hay_block") {
        return [190, 170, 70];
    }
    if str_eq(name, "minecraft:coal_ore") {
        return [100, 100, 100];
    }
    if str_eq(name, "minecraft:deepslate_coal_ore") {
        return [55, 55, 55];
    }
    if str_eq(name, "minecraft:iron_ore") {
        return [175, 155, 140];
    }
    if str_eq(name, "minecraft:deepslate_iron_ore") {
        return [100, 90, 80];
    }
    if str_eq(name, "minecraft:copper_ore") {
        return [160, 110, 80];
    }
    if str_eq(name, "minecraft:deepslate_copper_ore") {
        return [100, 70, 50];
    }
    if str_eq(name, "minecraft:gold_ore") {
        return [240, 210, 80];
    }
    if str_eq(name, "minecraft:deepslate_gold_ore") {
        return [120, 105, 40];
    }
    if str_eq(name, "minecraft:redstone_ore") {
        return [120, 120, 120];
    }
    if str_eq(name, "minecraft:deepslate_redstone_ore") {
        return [70, 70, 70];
    }
    if str_eq(name, "minecraft:lapis_ore") {
        return [80, 80, 180];
    }
    if str_eq(name, "minecraft:deepslate_lapis_ore") {
        return [50, 50, 100];
    }
    if str_eq(name, "minecraft:diamond_ore") {
        return [80, 220, 220];
    }
    if str_eq(name, "minecraft:deepslate_diamond_ore") {
        return [50, 110, 110];
    }
    if str_eq(name, "minecraft:emerald_ore") {
        return [80, 200, 100];
    }
    if str_eq(name, "minecraft:deepslate_emerald_ore") {
        return [50, 100, 60];
    }
    if str_eq(name, "minecraft:nether_gold_ore") {
        return [220, 190, 70];
    }
    if str_eq(name, "minecraft:coal_block") {
        return [40, 40, 40];
    }
    if str_eq(name, "minecraft:iron_block") {
        return [220, 220, 220];
    }
    if str_eq(name, "minecraft:copper_block") {
        return [200, 120, 80];
    }
    if str_eq(name, "minecraft:gold_block") {
        return [250, 210, 60];
    }
    if str_eq(name, "minecraft:diamond_block") {
        return [80, 240, 240];
    }
    if str_eq(name, "minecraft:emerald_block") {
        return [50, 220, 80];
    }
    if str_eq(name, "minecraft:redstone_block") {
        return [220, 30, 20];
    }
    if str_eq(name, "minecraft:lapis_block") {
        return [40, 50, 180];
    }
    if str_eq(name, "minecraft:netherite_block") {
        return [70, 60, 60];
    }
    if str_eq(name, "minecraft:raw_iron_block") {
        return [180, 160, 140];
    }
    if str_eq(name, "minecraft:raw_copper_block") {
        return [180, 100, 60];
    }
    if str_eq(name, "minecraft:raw_gold_block") {
        return [230, 190, 60];
    }
    if str_eq(name, "minecraft:exposed_copper") {
        return [180, 160, 100];
    }
    if str_eq(name, "minecraft:weathered_copper") {
        return [120, 180, 140];
    }
    if str_eq(name, "minecraft:oxidized_copper") {
        return [80, 180, 140];
    }
    if str_eq(name, "minecraft:chiseled_copper") {
        return [200, 120, 80];
    }
    if str_eq(name, "minecraft:cut_copper") {
        return [200, 120, 80];
    }
    if str_eq(name, "minecraft:exposed_chiseled_copper") {
        return [180, 160, 100];
    }
    if str_eq(name, "minecraft:exposed_cut_copper") {
        return [180, 160, 100];
    }
    if str_eq(name, "minecraft:weathered_chiseled_copper") {
        return [120, 180, 140];
    }
    if str_eq(name, "minecraft:weathered_cut_copper") {
        return [120, 180, 140];
    }
    if str_eq(name, "minecraft:oxidized_chiseled_copper") {
        return [80, 180, 140];
    }
    if str_eq(name, "minecraft:oxidized_cut_copper") {
        return [80, 180, 140];
    }
    if str_eq(name, "minecraft:prismarine") {
        return [90, 190, 180];
    }
    if str_eq(name, "minecraft:prismarine_bricks") {
        return [95, 195, 185];
    }
    if str_eq(name, "minecraft:dark_prismarine") {
        return [60, 140, 130];
    }
    if str_eq(name, "minecraft:dark_prismarine_bricks") {
        return [65, 145, 135];
    }
    if str_eq(name, "minecraft:sea_lantern") {
        return [180, 240, 230];
    }
    if str_eq(name, "minecraft:sponge") {
        return [220, 220, 100];
    }
    if str_eq(name, "minecraft:wet_sponge") {
        return [180, 190, 80];
    }
    if str_eq(name, "minecraft:terracotta") {
        return [152, 92, 69];
    }
    if str_eq(name, "minecraft:white_terracotta") {
        return [230, 220, 215];
    }
    if str_eq(name, "minecraft:orange_terracotta") {
        return [235, 150, 60];
    }
    if str_eq(name, "minecraft:magenta_terracotta") {
        return [210, 100, 180];
    }
    if str_eq(name, "minecraft:light_blue_terracotta") {
        return [100, 170, 230];
    }
    if str_eq(name, "minecraft:yellow_terracotta") {
        return [230, 210, 50];
    }
    if str_eq(name, "minecraft:lime_terracotta") {
        return [140, 210, 50];
    }
    if str_eq(name, "minecraft:pink_terracotta") {
        return [235, 170, 190];
    }
    if str_eq(name, "minecraft:gray_terracotta") {
        return [95, 95, 95];
    }
    if str_eq(name, "minecraft:light_gray_terracotta") {
        return [170, 170, 170];
    }
    if str_eq(name, "minecraft:cyan_terracotta") {
        return [90, 210, 210];
    }
    if str_eq(name, "minecraft:purple_terracotta") {
        return [150, 80, 200];
    }
    if str_eq(name, "minecraft:blue_terracotta") {
        return [70, 100, 220];
    }
    if str_eq(name, "minecraft:brown_terracotta") {
        return [110, 75, 50];
    }
    if str_eq(name, "minecraft:green_terracotta") {
        return [90, 150, 60];
    }
    if str_eq(name, "minecraft:red_terracotta") {
        return [210, 80, 60];
    }
    if str_eq(name, "minecraft:black_terracotta") {
        return [45, 45, 45];
    }
    if str_eq(name, "minecraft:clay") {
        return [160, 170, 190];
    }
    if str_eq(name, "minecraft:white_wool") {
        return [240, 240, 240];
    }
    if str_eq(name, "minecraft:orange_wool") {
        return [240, 150, 50];
    }
    if str_eq(name, "minecraft:magenta_wool") {
        return [220, 100, 190];
    }
    if str_eq(name, "minecraft:light_blue_wool") {
        return [110, 180, 240];
    }
    if str_eq(name, "minecraft:yellow_wool") {
        return [240, 220, 50];
    }
    if str_eq(name, "minecraft:lime_wool") {
        return [150, 220, 50];
    }
    if str_eq(name, "minecraft:pink_wool") {
        return [240, 170, 200];
    }
    if str_eq(name, "minecraft:gray_wool") {
        return [100, 100, 100];
    }
    if str_eq(name, "minecraft:light_gray_wool") {
        return [180, 180, 180];
    }
    if str_eq(name, "minecraft:cyan_wool") {
        return [100, 220, 220];
    }
    if str_eq(name, "minecraft:purple_wool") {
        return [160, 90, 210];
    }
    if str_eq(name, "minecraft:blue_wool") {
        return [80, 110, 230];
    }
    if str_eq(name, "minecraft:brown_wool") {
        return [120, 85, 55];
    }
    if str_eq(name, "minecraft:green_wool") {
        return [95, 155, 65];
    }
    if str_eq(name, "minecraft:red_wool") {
        return [220, 80, 60];
    }
    if str_eq(name, "minecraft:black_wool") {
        return [50, 50, 50];
    }
    if str_eq(name, "minecraft:glass") {
        return [190, 224, 235];
    }
    if str_eq(name, "minecraft:white_stained_glass") {
        return [245, 245, 245];
    }
    if str_eq(name, "minecraft:orange_stained_glass") {
        return [240, 150, 50];
    }
    if str_eq(name, "minecraft:magenta_stained_glass") {
        return [220, 100, 190];
    }
    if str_eq(name, "minecraft:light_blue_stained_glass") {
        return [110, 180, 240];
    }
    if str_eq(name, "minecraft:yellow_stained_glass") {
        return [240, 220, 50];
    }
    if str_eq(name, "minecraft:lime_stained_glass") {
        return [150, 220, 50];
    }
    if str_eq(name, "minecraft:pink_stained_glass") {
        return [240, 170, 200];
    }
    if str_eq(name, "minecraft:gray_stained_glass") {
        return [100, 100, 100];
    }
    if str_eq(name, "minecraft:light_gray_stained_glass") {
        return [180, 180, 180];
    }
    if str_eq(name, "minecraft:cyan_stained_glass") {
        return [100, 220, 220];
    }
    if str_eq(name, "minecraft:purple_stained_glass") {
        return [160, 90, 210];
    }
    if str_eq(name, "minecraft:blue_stained_glass") {
        return [80, 110, 230];
    }
    if str_eq(name, "minecraft:brown_stained_glass") {
        return [120, 85, 55];
    }
    if str_eq(name, "minecraft:green_stained_glass") {
        return [95, 155, 65];
    }
    if str_eq(name, "minecraft:red_stained_glass") {
        return [220, 80, 60];
    }
    if str_eq(name, "minecraft:black_stained_glass") {
        return [50, 50, 50];
    }
    if str_eq(name, "minecraft:white_concrete") {
        return [240, 240, 240];
    }
    if str_eq(name, "minecraft:orange_concrete") {
        return [240, 150, 50];
    }
    if str_eq(name, "minecraft:magenta_concrete") {
        return [220, 100, 190];
    }
    if str_eq(name, "minecraft:light_blue_concrete") {
        return [110, 180, 240];
    }
    if str_eq(name, "minecraft:yellow_concrete") {
        return [240, 220, 50];
    }
    if str_eq(name, "minecraft:lime_concrete") {
        return [150, 220, 50];
    }
    if str_eq(name, "minecraft:pink_concrete") {
        return [240, 170, 200];
    }
    if str_eq(name, "minecraft:gray_concrete") {
        return [100, 100, 100];
    }
    if str_eq(name, "minecraft:light_gray_concrete") {
        return [180, 180, 180];
    }
    if str_eq(name, "minecraft:cyan_concrete") {
        return [100, 220, 220];
    }
    if str_eq(name, "minecraft:purple_concrete") {
        return [160, 90, 210];
    }
    if str_eq(name, "minecraft:blue_concrete") {
        return [80, 110, 230];
    }
    if str_eq(name, "minecraft:brown_concrete") {
        return [120, 85, 55];
    }
    if str_eq(name, "minecraft:green_concrete") {
        return [95, 155, 65];
    }
    if str_eq(name, "minecraft:red_concrete") {
        return [220, 80, 60];
    }
    if str_eq(name, "minecraft:black_concrete") {
        return [50, 50, 50];
    }
    if str_eq(name, "minecraft:white_concrete_powder") {
        return [235, 235, 235];
    }
    if str_eq(name, "minecraft:orange_concrete_powder") {
        return [235, 145, 45];
    }
    if str_eq(name, "minecraft:magenta_concrete_powder") {
        return [215, 95, 185];
    }
    if str_eq(name, "minecraft:light_blue_concrete_powder") {
        return [105, 175, 235];
    }
    if str_eq(name, "minecraft:yellow_concrete_powder") {
        return [235, 215, 45];
    }
    if str_eq(name, "minecraft:lime_concrete_powder") {
        return [145, 215, 45];
    }
    if str_eq(name, "minecraft:pink_concrete_powder") {
        return [235, 165, 195];
    }
    if str_eq(name, "minecraft:gray_concrete_powder") {
        return [95, 95, 95];
    }
    if str_eq(name, "minecraft:light_gray_concrete_powder") {
        return [175, 175, 175];
    }
    if str_eq(name, "minecraft:cyan_concrete_powder") {
        return [95, 215, 215];
    }
    if str_eq(name, "minecraft:purple_concrete_powder") {
        return [155, 85, 205];
    }
    if str_eq(name, "minecraft:blue_concrete_powder") {
        return [75, 105, 225];
    }
    if str_eq(name, "minecraft:brown_concrete_powder") {
        return [115, 80, 50];
    }
    if str_eq(name, "minecraft:green_concrete_powder") {
        return [90, 150, 60];
    }
    if str_eq(name, "minecraft:red_concrete_powder") {
        return [215, 75, 55];
    }
    if str_eq(name, "minecraft:black_concrete_powder") {
        return [45, 45, 45];
    }
    if str_eq(name, "minecraft:glowstone") {
        return [250, 218, 138];
    }
    if str_eq(name, "minecraft:redstone_lamp") {
        return [200, 80, 50];
    }
    if str_eq(name, "minecraft:lit_redstone_lamp") {
        return [250, 120, 60];
    }
    if str_eq(name, "minecraft:beacon") {
        return [150, 220, 240];
    }
    if str_eq(name, "minecraft:lantern") {
        return [220, 190, 100];
    }
    if str_eq(name, "minecraft:soul_lantern") {
        return [100, 200, 220];
    }
    if str_eq(name, "minecraft:torch") {
        return [250, 200, 100];
    }
    if str_eq(name, "minecraft:soul_torch") {
        return [100, 200, 220];
    }
    if str_eq(name, "minecraft:campfire") {
        return [220, 120, 40];
    }
    if str_eq(name, "minecraft:soul_campfire") {
        return [100, 180, 200];
    }
    if str_eq(name, "minecraft:sea_pickle") {
        return [120, 200, 100];
    }
    if str_eq(name, "minecraft:bone_block") {
        return [230, 228, 210];
    }
    if str_eq(name, "minecraft:slime") {
        return [96, 146, 60];
    }
    if str_eq(name, "minecraft:bookshelf") {
        return [130, 95, 55];
    }
    if str_eq(name, "minecraft:scaffolding") {
        return [160, 140, 80];
    }
    if str_eq(name, "minecraft:target") {
        return [200, 200, 200];
    }
    if str_eq(name, "minecraft:amethyst_block") {
        return [150, 100, 200];
    }
    if str_eq(name, "minecraft:budding_amethyst") {
        return [160, 110, 210];
    }
    if str_eq(name, "minecraft:amethyst_cluster") {
        return [150, 100, 200];
    }
    if str_eq(name, "minecraft:small_amethyst_bud") {
        return [150, 100, 200];
    }
    if str_eq(name, "minecraft:medium_amethyst_bud") {
        return [150, 100, 200];
    }
    if str_eq(name, "minecraft:large_amethyst_bud") {
        return [150, 100, 200];
    }
    if str_eq(name, "minecraft:sculk") {
        return [10, 20, 30];
    }
    if str_eq(name, "minecraft:sculk_catalyst") {
        return [15, 25, 35];
    }
    if str_eq(name, "minecraft:sculk_shrieker") {
        return [15, 25, 35];
    }
    if str_eq(name, "minecraft:sculk_vein") {
        return [10, 20, 30];
    }
    if str_eq(name, "minecraft:sculk_sensor") {
        return [15, 25, 35];
    }
    if str_eq(name, "minecraft:echo_shard_block") {
        return [200, 200, 210];
    }
    if str_eq(name, "minecraft:redstone_torch") {
        return [220, 50, 30];
    }
    if str_eq(name, "minecraft:lit_redstone_torch") {
        return [250, 80, 40];
    }
    if str_eq(name, "minecraft:repeater") {
        return [120, 120, 120];
    }
    if str_eq(name, "minecraft:comparator") {
        return [120, 120, 120];
    }
    if str_eq(name, "minecraft:barrier") {
        return [128, 128, 128];
    }
    if str_eq(name, "minecraft:light_block") {
        return [255, 255, 255];
    }
    hash_color(name)
}

/// Stable pseudo-random color derived from the block name (FNV-1a).
pub fn hash_color(name: &str) -> (out: [u8; 3])
    ensures
        out == fallback_color(name.spec_bytes()),
        30 <= out[0] < 210 && 30 <= out[1] < 210 && 30 <= out[2] < 210,
{
    let bytes = name.as_bytes();
    let mut h: u64 = FNV_OFFSET;
    let mut i: usize = 0;
    while i < bytes.len()
        invariant
            0 <= i <= bytes.len(),
            bytes@ == name.spec_bytes(),
            h == fnv1a(bytes@.take(i as int)),
        decreases bytes.len() - i,
    {
        assert(bytes@.take(i + 1).drop_last() =~= bytes@.take(i as int));
        h = h ^ (bytes[i] as u64);
        h = h.wrapping_mul(FNV_PRIME);
        i = i + 1;
    }
    assert(bytes@.take(i as int) =~= bytes@);
    let r = 30 + h % 180;
    let g = 30 + (h >> 8) % 180;
    let b = 30 + (h >> 16) % 180;
    assert(h >> 8 == h / 0x100) by (bit_vector);
    assert(h >> 16 == h / 0x1_0000) by (bit_vector);
    [r as u8, g as u8, b as u8]
}

} // verus!
