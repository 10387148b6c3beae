use worldraw::color::{
    blend_water, display_color, light_bloom_color, night_darken, night_shade, shade, NO_BLOCK,
};
use worldraw::palette::block_color;

#[test]
fn shade_darkens_and_keeps_void_black() {
    assert_eq!(shade([100, 200, 50]), [55, 110, 27]);
    assert_eq!(shade(NO_BLOCK), NO_BLOCK);

    let c = [255u8, 200, 100];
    let s = shade(c);
    assert!(s[0] <= c[0] && s[1] <= c[1] && s[2] <= c[2]);
}

fn dist(a: [u8; 3], b: [u8; 3]) -> i32 {
    a.iter().zip(b.iter()).map(|(x, y)| (*x as i32 - *y as i32).abs()).sum::<i32>()
}

#[test]
fn blend_water_keeps_the_floor_barely_visible() {
    let water = [62u8, 121, 201];
    let floor = [255u8, 255, 255];
    let blended = blend_water(water, floor);

    assert_ne!(blended, water);
    assert_ne!(blended, floor);
    for c in 0..3 {
        let lo = water[c].min(floor[c]) as i32;
        let hi = water[c].max(floor[c]) as i32;
        assert!(
            blended[c] as i32 >= lo && blended[c] as i32 <= hi,
            "channel {c} must stay between the two inputs"
        );
    }
    assert!(dist(blended, water) < dist(blended, floor));
}

#[test]
fn display_color_blends_water_with_the_block_beneath() {
    let water = Some("minecraft:water".to_string());
    let dirt = Some("minecraft:dirt".to_string());

    let water_color = block_color("minecraft:water");
    let dirt_color = block_color("minecraft:dirt");

    assert_eq!(display_color(&dirt, &None, true), dirt_color);
    assert_eq!(display_color(&water, &None, true), water_color);
    assert_eq!(display_color(&water, &dirt, false), water_color);

    let blended = display_color(&water, &dirt, true);
    assert_ne!(blended, water_color);
    assert!(dist(blended, water_color) < dist(blended, dirt_color));
}

#[test]
fn light_bloom_color_is_only_for_emitters() {
    assert_eq!(light_bloom_color("minecraft:torch"), Some([255, 200, 90]));
    assert_eq!(light_bloom_color("minecraft:lava"), Some([255, 130, 30]));
    assert_eq!(light_bloom_color("minecraft:glowstone"), Some([255, 225, 140]));
    assert_eq!(light_bloom_color("minecraft:glow_lichen"), Some([130, 230, 160]));
    assert_eq!(light_bloom_color("minecraft:grass_block"), None);
    assert_eq!(light_bloom_color("minecraft:air"), None);
}

#[test]
fn shading_never_brightens_and_night_shadows_are_darker() {
    for c in [[0u8, 0, 0], [1, 2, 3], [255, 255, 255], [100, 200, 50], [37, 99, 251]] {
        let day = shade(c);
        let night = night_shade(c);
        let dark = night_darken(c);
        for k in 0..3 {
            assert!(day[k] <= c[k]);
            assert!(night[k] <= day[k]);
            assert!(dark[k] <= c[k]);
        }
    }
    assert_eq!(night_shade([100, 200, 50]), [20, 40, 10]);
    assert_eq!(night_darken([100, 200, 50]), [35, 70, 17]);
    assert_eq!(night_shade(NO_BLOCK), NO_BLOCK);
}
