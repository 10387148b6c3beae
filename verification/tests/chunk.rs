use worldraw::chunk::{
    bits_per_block, chunk_is_readable, get_top_blocks, is_air, is_water, read_packed_index, BlockStates, Chunk,
    PaletteEntry, Section,
};

fn section(y: i8, name: &str) -> Section {
    Section {
        y,
        block_states: Some(BlockStates {
            palette: vec![PaletteEntry { name: name.to_string() }],
            data: None,
        }),
    }
}

#[test]
fn under_water_lookup_finds_the_first_solid_block_below() {
    let chunk = Chunk {
        sections: vec![section(4, "minecraft:water"), section(3, "minecraft:dirt")],
    };

    let top = get_top_blocks(&chunk);

    assert_eq!(top.blocks[0].as_deref(), Some("minecraft:water"));
    assert_eq!(top.heights[0], Some(4 * 16 + 15));
    assert_eq!(top.under[0].as_deref(), Some("minecraft:dirt"));
}

#[test]
fn air_sections_are_skipped_and_void_columns_stay_empty() {
    let chunk = Chunk {
        sections: vec![section(5, "minecraft:air"), section(-1, "minecraft:stone")],
    };
    let top = get_top_blocks(&chunk);
    assert_eq!(top.blocks.len(), 256);
    assert_eq!(top.blocks[17].as_deref(), Some("minecraft:stone"));
    assert_eq!(top.heights[17], Some(-16 + 15));
    assert_eq!(top.under[17], None);

    let empty = get_top_blocks(&Chunk { sections: vec![] });
    assert!(empty.blocks.iter().all(|b| b.is_none()));
    assert!(empty.heights.iter().all(|h| h.is_none()));
}

#[test]
fn the_highest_section_wins_whatever_the_order() {
    let chunk = Chunk {
        sections: vec![section(1, "minecraft:dirt"), section(7, "minecraft:sand"), section(2, "minecraft:stone")],
    };
    let top = get_top_blocks(&chunk);
    assert_eq!(top.blocks[255].as_deref(), Some("minecraft:sand"));
    assert_eq!(top.heights[255], Some(7 * 16 + 15));
}

#[test]
fn packed_indices_are_read_from_the_long_array() {
    // Two palette entries (bits = 4): the block at index 1 of long 0 is
    // entry 1 when bits 4..8 hold 1.
    let palette = vec![
        PaletteEntry { name: "minecraft:stone".to_string() },
        PaletteEntry { name: "minecraft:gold_block".to_string() },
    ];
    let mut data = vec![0i64; 256];
    data[0] = 1 << 4;
    let chunk = Chunk {
        sections: vec![Section { y: 0, block_states: Some(BlockStates { palette, data: Some(data) }) }],
    };
    let top = get_top_blocks(&chunk);
    // Highest layer is y = 15: index 15 * 256 + z * 16 + x; only index 1 is
    // gold and it sits in the bottom layer, so the top is stone everywhere.
    assert_eq!(top.blocks[1].as_deref(), Some("minecraft:stone"));
    assert_eq!(top.heights[1], Some(15));

    assert_eq!(read_packed_index(&[0x0000_0000_0000_0120], 1, 4, 16, 0xF), 2);
    assert_eq!(read_packed_index(&[0x0000_0000_0000_0120], 2, 4, 16, 0xF), 1);
}

#[test]
fn bits_per_block_has_a_floor_of_four() {
    assert_eq!(bits_per_block(0), 4);
    assert_eq!(bits_per_block(1), 4);
    assert_eq!(bits_per_block(16), 4);
    assert_eq!(bits_per_block(17), 5);
    assert_eq!(bits_per_block(300), 9);
}

#[test]
fn air_and_water_names() {
    assert!(is_air("minecraft:air"));
    assert!(is_air("minecraft:cave_air"));
    assert!(is_air("minecraft:void_air"));
    assert!(!is_air("minecraft:stone"));
    assert!(is_water("minecraft:water"));
    assert!(!is_water("minecraft:lava"));
}

fn packed_section(palette: usize, longs: usize) -> Section {
    Section {
        y: 0,
        block_states: Some(BlockStates {
            palette: (0..palette)
                .map(|i| PaletteEntry { name: format!("minecraft:block_{i}") })
                .collect(),
            data: Some(vec![0i64; longs]),
        }),
    }
}

#[test]
fn chunk_is_readable_follows_the_surface_scan() {
    // Four bits per block: sixteen entries per long, 256 longs for 4096 blocks.
    assert!(chunk_is_readable(&Chunk { sections: vec![packed_section(2, 256)] }));
    assert!(!chunk_is_readable(&Chunk { sections: vec![packed_section(2, 255)] }));
    // Five bits per block: twelve entries per long, 342 longs.
    assert!(chunk_is_readable(&Chunk { sections: vec![packed_section(17, 342)] }));
    assert!(!chunk_is_readable(&Chunk { sections: vec![packed_section(17, 341)] }));
    assert!(chunk_is_readable(&Chunk { sections: vec![section(1, "minecraft:stone")] }));
    assert!(chunk_is_readable(&Chunk { sections: vec![] }));

    // A short array below the surface is never read.
    let mut low = packed_section(2, 10);
    low.y = -1;
    let chunk = Chunk { sections: vec![section(3, "minecraft:stone"), low] };
    assert!(chunk_is_readable(&chunk));
    let top = get_top_blocks(&chunk);
    assert_eq!(top.heights[0], Some(3 * 16 + 15));
    assert_eq!(top.blocks[255].as_deref(), Some("minecraft:stone"));

    // The same array above the surface is read from its top.
    let mut high = packed_section(2, 10);
    high.y = 5;
    assert!(!chunk_is_readable(&Chunk { sections: vec![section(3, "minecraft:stone"), high] }));

    // Under water the scan goes down to the floor, and no further.
    let mut deep = packed_section(2, 10);
    deep.y = 0;
    let lake = Chunk {
        sections: vec![section(4, "minecraft:water"), section(3, "minecraft:dirt"), deep],
    };
    assert!(chunk_is_readable(&lake));
    assert_eq!(get_top_blocks(&lake).under[0].as_deref(), Some("minecraft:dirt"));
    let mut between = packed_section(2, 10);
    between.y = 3;
    let murky = Chunk {
        sections: vec![section(4, "minecraft:water"), between, section(2, "minecraft:dirt")],
    };
    assert!(!chunk_is_readable(&murky));
}
