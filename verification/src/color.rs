//! Color math for a map column: the void color, shadow and night darkening,
//! ambient-occlusion darkening, and water transparency blending.
//!
//! [`display_color`] is the single entry point used everywhere a column has to
//! become an RGB color: it resolves a block's base color from the palette and,
//! when transparency is enabled and the surface is water, blends in the block
//! seen through the water.

use vstd::prelude::*;

use crate::chunk::{is_water, is_water_name};
use crate::palette::{block_color, color_of_name};
use crate::text::str_eq;

verus! {

/// Color used for columns that have no non-air block (pure void).
pub const NO_BLOCK: [u8; 3] = [0, 0, 0];

/// Numerator of the factor applied to every channel of a shadowed surface.
pub const SHADOW_NUMERATOR: u32 = 55;

/// Denominator shared by the shadow and night factors.
pub const SHADOW_DENOMINATOR: u32 = 100;

/// Numerator of the factor applied to every channel in night mode.
pub const NIGHT_NUMERATOR: u32 = 35;

/// Numerator of the factor applied to a shadowed (already night-darkened)
/// channel in night mode: shadows become almost pitch black.
pub const NIGHT_SHADOW_NUMERATOR: u32 = 20;

/// Weight of the water color in a transparent water column.
pub const WATER_OVER: u32 = 5;

/// Weight of the color of the block seen through the water.
pub const WATER_UNDER: u32 = 1;

/// One channel scaled by `num / den`, rounded down.
pub open spec fn scale_channel(c: u8, num: int, den: int) -> int {
    (c as int * num) / den
}

/// Every channel of `rgb` scaled by `num / den`, rounded down.
pub open spec fn scaled(rgb: [u8; 3], num: int, den: int) -> [u8; 3] {
    [
        scale_channel(rgb[0], num, den) as u8,
        scale_channel(rgb[1], num, den) as u8,
        scale_channel(rgb[2], num, den) as u8,
    ]
}

proof fn lemma_scaled_fits(c: u8, num: int, den: int)
    requires
        0 < den,
        0 <= num <= den,
    ensures
        0 <= (c as int * num) / den <= c,
        c as int * num <= 255 * den,
{
    assert(0 <= c as int * num <= c as int * den) by (nonlinear_arith)
        requires
            0 <= num <= den,
            0 <= c,
    ;
    assert(c as int * den <= 255 * den) by (nonlinear_arith)
        requires
            c <= 255,
            0 < den,
    ;
    vstd::arithmetic::div_mod::lemma_div_is_ordered(c as int * num, c as int * den, den);
    vstd::arithmetic::div_mod::lemma_div_multiples_vanish(c as int, den);
    vstd::arithmetic::div_mod::lemma_div_pos_is_pos(c as int * num, den);
}

fn scale_rgb(rgb: [u8; 3], num: u32, den: u32) -> (out: [u8; 3])
    requires
        0 < den,
        num <= den,
    ensures
        out == scaled(rgb, num as int, den as int),
{
    proof {
        lemma_scaled_fits(rgb[0], num as int, den as int);
        lemma_scaled_fits(rgb[1], num as int, den as int);
        lemma_scaled_fits(rgb[2], num as int, den as int);
    }
    let r = (rgb[0] as u64 * num as u64) / den as u64;
    let g = (rgb[1] as u64 * num as u64) / den as u64;
    let b = (rgb[2] as u64 * num as u64) / den as u64;
    [r as u8, g as u8, b as u8]
}

/// Darken a color to its "in shadow" appearance by scaling every channel by
/// `SHADOW_NUMERATOR / SHADOW_DENOMINATOR`.
pub fn shade(rgb: [u8; 3]) -> (out: [u8; 3])
    ensures
        out == scaled(rgb, 55, 100),
{
    scale_rgb(rgb, SHADOW_NUMERATOR, SHADOW_DENOMINATOR)
}

/// Darken a color for night mode.
pub fn night_darken(rgb: [u8; 3]) -> (out: [u8; 3])
    ensures
        out == scaled(rgb, 35, 100),
{
    scale_rgb(rgb, NIGHT_NUMERATOR, SHADOW_DENOMINATOR)
}

/// The night-mode shadow: far darker than [`shade`].
pub fn night_shade(rgb: [u8; 3]) -> (out: [u8; 3])
    ensures
        out == scaled(rgb, 20, 100),
{
    scale_rgb(rgb, NIGHT_SHADOW_NUMERATOR, SHADOW_DENOMINATOR)
}

/// The shadow darkening of the chosen mode.
pub open spec fn shaded_for(rgb: [u8; 3], night: bool) -> [u8; 3] {
    if night {
        scaled(rgb, 20, 100)
    } else {
        scaled(rgb, 55, 100)
    }
}

/// The shadow darkening of the chosen mode.
pub fn shade_for(rgb: [u8; 3], night: bool) -> (out: [u8; 3])
    ensures
        out == shaded_for(rgb, night),
{
    if night {
        night_shade(rgb)
    } else {
        shade(rgb)
    }
}

/// Darkening never brightens: a color scaled by a factor of at most one has
/// no channel brighter than before, the void color stays black, and in night
/// mode a shadow is never brighter than the daytime shadow of the same color.
pub proof fn lemma_shading_never_brightens(rgb: [u8; 3], num: int, den: int)
    requires
        0 < den,
        0 <= num <= den,
    ensures
        forall|k: int| 0 <= k < 3 ==> #[trigger] scaled(rgb, num, den)[k] <= rgb[k],
        scaled(NO_BLOCK, num, den) == NO_BLOCK,
        forall|k: int| 0 <= k < 3 ==> #[trigger] shaded_for(rgb, true)[k] <= shaded_for(rgb, false)[k],
{
    lemma_scaled_fits(rgb[0], num, den);
    lemma_scaled_fits(rgb[1], num, den);
    lemma_scaled_fits(rgb[2], num, den);
    lemma_scaled_fits(0, num, den);
    assert(0int * num == 0) by (nonlinear_arith);
    assert(scaled(NO_BLOCK, num, den) =~= NO_BLOCK);
    assert forall|k: int| 0 <= k < 3 implies #[trigger] shaded_for(rgb, true)[k] <= shaded_for(
        rgb,
        false,
    )[k] by {
        lemma_scaled_fits(rgb[k], 20, 100);
        lemma_scaled_fits(rgb[k], 55, 100);
        assert(rgb[k] as int * 20 <= rgb[k] as int * 55) by (nonlinear_arith)
            requires
                0 <= rgb[k],
        ;
        vstd::arithmetic::div_mod::lemma_div_is_ordered(rgb[k] as int * 20, rgb[k] as int * 55, 100);
    }
}

/// The night darkening when night mode is on, else the color unchanged.
pub open spec fn night_for(rgb: [u8; 3], night: bool) -> [u8; 3] {
    if night {
        scaled(rgb, 35, 100)
    } else {
        rgb
    }
}

/// The night darkening when night mode is on, else the color unchanged.
pub fn darken_for(rgb: [u8; 3], night: bool) -> (out: [u8; 3])
    ensures
        out == night_for(rgb, night),
{
    if night {
        night_darken(rgb)
    } else {
        rgb
    }
}

/// Blend a color toward black for ambient occlusion: `dark / band` is the
/// darkening amount (0 = unchanged, `band` = black), so every channel keeps
/// the fraction `(band - dark) / band`, rounded down. The fraction is exact:
/// computing `c * (1 - (1 - d / band))` in single-precision floating point
/// instead gives the same channels for bands of 1 to 4, 6 and 8, and can be
/// one unit lower for bands of 5 and 7 (a channel of 5 at one fifth keeps 1
/// here and 0 in `f32`).
pub fn apply_ao(rgb: [u8; 3], dark: u32, band: u32) -> (out: [u8; 3])
    requires
        0 < band,
        dark <= band,
    ensures
        out == scaled(rgb, band - dark, band as int),
{
    scale_rgb(rgb, band - dark, band)
}

/// One channel of a water blend: `(water * 5 + under * 1) / 6`, rounded down.
pub open spec fn blend_channel(w: u8, u: u8) -> int {
    (w as int * 5 + u as int * 1) / 6
}

/// The water blend of two colors.
pub open spec fn blended(water: [u8; 3], under: [u8; 3]) -> [u8; 3] {
    [
        blend_channel(water[0], under[0]) as u8,
        blend_channel(water[1], under[1]) as u8,
        blend_channel(water[2], under[2]) as u8,
    ]
}

/// Blend a water color with the color of the block seen through it so the
/// block is only barely visible: water is weighted by [`WATER_OVER`] and the
/// block beneath by [`WATER_UNDER`].
///
/// Every channel of the result lies between the two inputs' channels.
pub fn blend_water(water: [u8; 3], under: [u8; 3]) -> (out: [u8; 3])
    ensures
        out == blended(water, under),
        forall|k: int|
            0 <= k < 3 ==> (water[k] <= #[trigger] out[k] <= under[k]) || (under[k] <= out[k]
                <= water[k]),
{
    let total = WATER_OVER + WATER_UNDER;
    let r = (water[0] as u32 * WATER_OVER + under[0] as u32 * WATER_UNDER) / total;
    let g = (water[1] as u32 * WATER_OVER + under[1] as u32 * WATER_UNDER) / total;
    let b = (water[2] as u32 * WATER_OVER + under[2] as u32 * WATER_UNDER) / total;
    [r as u8, g as u8, b as u8]
}

/// The characters of an optional name.
pub open spec fn opt_chars(o: Option<String>) -> Option<Seq<char>> {
    match o {
        Some(s) => Some(s@),
        None => None,
    }
}

/// Display color of a column with surface `top` and (for water) the block
/// `under` it: the surface's block color, blended with the block beneath when
/// transparency is on and the surface is water; black for a void column.
pub open spec fn display_color_of(top: Option<Seq<char>>, under: Option<Seq<char>>, transparency: bool) -> [u8; 3] {
    match top {
        None => NO_BLOCK,
        Some(n) => if transparency && is_water_name(n) && under is Some {
            blended(color_of_name(n), color_of_name(under->0))
        } else {
            color_of_name(n)
        },
    }
}

/// Display color for a column given its surface block and (for water) the
/// block beneath it.
///
/// Without transparency, or when the surface is not water, this is simply
/// [`block_color`] of the surface block ([`NO_BLOCK`] for void). With
/// transparency enabled and the surface being water, the water color is
/// blended with the color of the block beneath; if there is no block beneath,
/// plain water is used.
pub fn display_color(top: &Option<String>, under: &Option<String>, transparency: bool) -> (out: [u8; 3])
    ensures
        out == display_color_of(opt_chars(*top), opt_chars(*under), transparency),
{
    match top {
        Some(name) => {
            if transparency && is_water(name.as_str()) {
                if let Some(un) = under {
                    return blend_water(block_color(name.as_str()), block_color(un.as_str()));
                }
            }
            block_color(name.as_str())
        },
        None => NO_BLOCK,
    }
}

/// The additive bloom color a light-emitting block casts onto its
/// surroundings, or `None` for a block that emits no light.
pub open spec fn bloom_color_of(n: Seq<char>) -> Option<[u8; 3]> {
    if n == "minecraft:torch"@ || n == "minecraft:redstone_torch"@ || n
        == "minecraft:lit_redstone_torch"@ || n == "minecraft:lantern"@ || n
        == "minecraft:campfire"@ || n == "minecraft:lit_pumpkin"@ || n
        == "minecraft:lit_redstone_lamp"@ {
        Some([255, 200, 90])
    } else if n == "minecraft:glowstone"@ {
        Some([255, 225, 140])
    } else if n == "minecraft:lava"@ || n == "minecraft:flowing_lava"@ {
        Some([255, 130, 30])
    } else if n == "minecraft:soul_torch"@ || n == "minecraft:soul_lantern"@ || n
        == "minecraft:soul_campfire"@ {
        Some([110, 200, 220])
    } else if n == "minecraft:sea_lantern"@ {
        Some([180, 240, 235])
    } else if n == "minecraft:shroomlight"@ {
        Some([235, 160, 120])
    } else if n == "minecraft:beacon"@ {
        Some([160, 225, 245])
    } else if n == "minecraft:sea_pickle"@ {
        Some([150, 220, 130])
    } else if n == "minecraft:end_rod"@ {
        Some([210, 235, 190])
    } else if n == "minecraft:glow_lichen"@ {
        Some([130, 230, 160])
    } else if n == "minecraft:glow_berries"@ {
        Some([235, 130, 165])
    } else if n == "minecraft:crying_obsidian"@ {
        Some([150, 90, 200])
    } else {
        None
    }
}

/// The additive "bloom" color a light-emitting block casts onto its
/// surroundings when bloom is enabled.
///
/// Returns `Some(color)` for blocks that emit light (torches, lava,
/// glowstone, lanterns, ...) and `None` otherwise.
pub fn light_bloom_color(name: &str) -> (out: Option<[u8; 3]>)
    ensures
        out == bloom_color_of(name@),
{
    if str_eq(name, "minecraft:torch") || str_eq(name, "minecraft:redstone_torch") || str_eq(
        name,
        "minecraft:lit_redstone_torch",
    ) || str_eq(name, "minecraft:lantern") || str_eq(name, "minecraft:campfire") || str_eq(
        name,
        "minecraft:lit_pumpkin",
    ) || str_eq(name, "minecraft:lit_redstone_lamp") {
        Some([255, 200, 90])
    } else if str_eq(name, "minecraft:glowstone") {
        Some([255, 225, 140])
    } else if str_eq(name, "minecraft:lava") || str_eq(name, "minecraft:flowing_lava") {
        Some([255, 130, 30])
    } else if str_eq(name, "minecraft:soul_torch") || str_eq(name, "minecraft:soul_lantern")
        || str_eq(name, "minecraft:soul_campfire") {
        Some([110, 200, 220])
    } else if str_eq(name, "minecraft:sea_lantern") {
        Some([180, 240, 235])
    } else if str_eq(name, "minecraft:shroomlight") {
        Some([235, 160, 120])
    } else if str_eq(name, "minecraft:beacon") {
        Some([160, 225, 245])
    } else if str_eq(name, "minecraft:sea_pickle") {
        Some([150, 220, 130])
    } else if str_eq(name, "minecraft:end_rod") {
        Some([210, 235, 190])
    } else if str_eq(name, "minecraft:glow_lichen") {
        Some([130, 230, 160])
    } else if str_eq(name, "minecraft:glow_berries") {
        Some([235, 130, 165])
    } else if str_eq(name, "minecraft:crying_obsidian") {
        Some([150, 90, 200])
    } else {
        None
    }
}

/// The bloom colors of the light-emitting blocks, in alphabetical order: a
/// warm torch light for torches, redstone torches, lanterns, campfires,
/// jack o'lanterns and lit redstone lamps; a pale gold for glowstone; orange
/// for lava; cyan for the soul-fire blocks; and a color of its own for each
/// of beacons, crying obsidian, end rods, glow berries, glow lichen, sea
/// lanterns, sea pickles and shroomlights.
#[verifier::rlimit(100)]
pub proof fn lemma_bloom_color_table()
    ensures
        bloom_color_of("minecraft:beacon"@) == Some([160u8, 225u8, 245u8]),
        bloom_color_of("minecraft:campfire"@) == Some([255u8, 200u8, 90u8]),
        bloom_color_of("minecraft:crying_obsidian"@) == Some([150u8, 90u8, 200u8]),
        bloom_color_of("minecraft:end_rod"@) == Some([210u8, 235u8, 190u8]),
        bloom_color_of("minecraft:flowing_lava"@) == Some([255u8, 130u8, 30u8]),
        bloom_color_of("minecraft:glow_berries"@) == Some([235u8, 130u8, 165u8]),
        bloom_color_of("minecraft:glow_lichen"@) == Some([130u8, 230u8, 160u8]),
        bloom_color_of("minecraft:glowstone"@) == Some([255u8, 225u8, 140u8]),
        bloom_color_of("minecraft:lantern"@) == Some([255u8, 200u8, 90u8]),
        bloom_color_of("minecraft:lava"@) == Some([255u8, 130u8, 30u8]),
        bloom_color_of("minecraft:lit_pumpkin"@) == Some([255u8, 200u8, 90u8]),
        bloom_color_of("minecraft:lit_redstone_lamp"@) == Some([255u8, 200u8, 90u8]),
        bloom_color_of("minecraft:lit_redstone_torch"@) == Some([255u8, 200u8, 90u8]),
        bloom_color_of("minecraft:redstone_torch"@) == Some([255u8, 200u8, 90u8]),
        bloom_color_of("minecraft:sea_lantern"@) == Some([180u8, 240u8, 235u8]),
        bloom_color_of("minecraft:sea_pickle"@) == Some([150u8, 220u8, 130u8]),
        bloom_color_of("minecraft:shroomlight"@) == Some([235u8, 160u8, 120u8]),
        bloom_color_of("minecraft:soul_campfire"@) == Some([110u8, 200u8, 220u8]),
        bloom_color_of("minecraft:soul_lantern"@) == Some([110u8, 200u8, 220u8]),
        bloom_color_of("minecraft:soul_torch"@) == Some([110u8, 200u8, 220u8]),
        bloom_color_of("minecraft:torch"@) == Some([255u8, 200u8, 90u8]),
{
    reveal_strlit("minecraft:beacon");
    assert("minecraft:beacon"@.len() == 16);
    reveal_strlit("minecraft:campfire");
    assert("minecraft:campfire"@.len() == 18);
    reveal_strlit("minecraft:crying_obsidian");
    assert("minecraft:crying_obsidian"@.len() == 25);
    reveal_strlit("minecraft:end_rod");
    assert("minecraft:end_rod"@.len() == 17);
    reveal_strlit("minecraft:flowing_lava");
    assert("minecraft:flowing_lava"@.len() == 22);
    reveal_strlit("minecraft:glow_berries");
    assert("minecraft:glow_berries"@.len() == 22);
    reveal_strlit("minecraft:glow_lichen");
    assert("minecraft:glow_lichen"@.len() == 21);
    reveal_strlit("minecraft:glowstone");
    assert("minecraft:glowstone"@.len() == 19);
    reveal_strlit("minecraft:lantern");
    assert("minecraft:lantern"@.len() == 17);
    reveal_strlit("minecraft:lava");
    assert("minecraft:lava"@.len() == 14);
    reveal_strlit("minecraft:lit_pumpkin");
    assert("minecraft:lit_pumpkin"@.len() == 21);
    reveal_strlit("minecraft:lit_redstone_lamp");
    assert("minecraft:lit_redstone_lamp"@.len() == 27);
    reveal_strlit("minecraft:lit_redstone_torch");
    assert("minecraft:lit_redstone_torch"@.len() == 28);
    reveal_strlit("minecraft:redstone_torch");
    assert("minecraft:redstone_torch"@.len() == 24);
    reveal_strlit("minecraft:sea_lantern");
    assert("minecraft:sea_lantern"@.len() == 21);
    reveal_strlit("minecraft:sea_pickle");
    assert("minecraft:sea_pickle"@.len() == 20);
    reveal_strlit("minecraft:shroomlight");
    assert("minecraft:shroomlight"@.len() == 21);
    reveal_strlit("minecraft:soul_campfire");
    assert("minecraft:soul_campfire"@.len() == 23);
    reveal_strlit("minecraft:soul_lantern");
    assert("minecraft:soul_lantern"@.len() == 22);
    reveal_strlit("minecraft:soul_torch");
    assert("minecraft:soul_torch"@.len() == 20);
    reveal_strlit("minecraft:torch");
    assert("minecraft:torch"@.len() == 15);
    assert("minecraft:end_rod"@[10] != "minecraft:lantern"@[10]);
    assert("minecraft:flowing_lava"@[10] != "minecraft:glow_berries"@[10]);
    assert("minecraft:flowing_lava"@[10] != "minecraft:soul_lantern"@[10]);
    assert("minecraft:glow_berries"@[10] != "minecraft:soul_lantern"@[10]);
    assert("minecraft:glow_lichen"@[10] != "minecraft:lit_pumpkin"@[10]);
    assert("minecraft:glow_lichen"@[10] != "minecraft:sea_lantern"@[10]);
    assert("minecraft:glow_lichen"@[10] != "minecraft:shroomlight"@[10]);
    assert("minecraft:lit_pumpkin"@[10] != "minecraft:sea_lantern"@[10]);
    assert("minecraft:lit_pumpkin"@[10] != "minecraft:shroomlight"@[10]);
    assert("minecraft:sea_lantern"@[11] != "minecraft:shroomlight"@[11]);
    assert("minecraft:sea_pickle"@[11] != "minecraft:soul_torch"@[11]);
}

/// The bloom color of an optional surface block; black for void or for a
/// block that emits no light.
pub open spec fn light_of(top: Option<Seq<char>>) -> [u8; 3] {
    match top {
        Some(n) => match bloom_color_of(n) {
            Some(c) => c,
            None => NO_BLOCK,
        },
        None => NO_BLOCK,
    }
}

/// The bloom color of an optional surface block; black for void or for a
/// block that emits no light.
pub fn column_light(top: &Option<String>) -> (out: [u8; 3])
    ensures
        out == light_of(opt_chars(*top)),
{
    match top {
        Some(name) => match light_bloom_color(name.as_str()) {
            Some(c) => c,
            None => NO_BLOCK,
        },
        None => NO_BLOCK,
    }
}

} // verus!
