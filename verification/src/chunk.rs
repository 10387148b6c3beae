//! Chunk data model and surface (top-block) extraction.
//!
//! A chunk is a stack of 16-block-tall sections. Each section stores its
//! blocks as a palette plus a packed array of palette indices (or a single
//! palette entry when the whole section is one block). This module reduces a
//! chunk to its top-down surface: for every x/z column the highest non-air
//! block, its absolute Y, and -- when the surface is water -- the first solid
//! block beneath it.

use vstd::prelude::*;
use vstd::arithmetic::power2::{pow2, lemma_pow2_pos};
use vstd::bits::{
    low_bits_mask, lemma_u64_low_bits_mask_is_mod, lemma_u64_shl_is_mul, lemma_u64_shr_is_div,
    lemma_u64_pow2_no_overflow,
};

use crate::text::str_eq;

verus! {

/// Number of blocks on one side of a chunk.
pub const CHUNK_SIZE: usize = 16;

/// Number of x/z columns in a chunk (16 * 16).
pub const COLUMNS: usize = 256;

/// Sentinel surface height for a column that has no block (pure void).
pub const VOID_H: i32 = -1_000_000;

/// Exclusive upper bound on every absolute block height a section can hold
/// (the highest section, `y = 127`, ends at `127 * 16 + 15`).
pub const HEIGHT_LIMIT: i32 = 2048;

/// One entry of a section's block palette.
pub struct PaletteEntry {
    pub name: String,
}

/// A section's paletted block storage.
pub struct BlockStates {
    pub palette: Vec<PaletteEntry>,
    /// Packed palette indices, or `None` when every block of the section is
    /// the first palette entry.
    pub data: Option<Vec<i64>>,
}

/// One 16x16x16 slice of a chunk.
pub struct Section {
    /// Section index: the section holds absolute heights `y * 16 .. y * 16 + 16`.
    pub y: i8,
    pub block_states: Option<BlockStates>,
}

/// A chunk: its sections, in any order.
pub struct Chunk {
    pub sections: Vec<Section>,
}

/// The top block for every x/z column of a chunk (index = `z * 16 + x`).
pub struct ChunkTop {
    /// Name of the highest non-air block, or `None` for a void column.
    pub blocks: Vec<Option<String>>,
    /// Absolute Y of that block, or `None` for a void column.
    pub heights: Vec<Option<i32>>,
    /// When the top block is water: the first non-water, non-air block beneath
    /// it, if any.
    pub under: Vec<Option<String>>,
}

/// The characters of an optional name.
pub open spec fn name_of(o: Option<String>) -> Option<Seq<char>> {
    match o {
        Some(s) => Some(s@),
        None => None,
    }
}

/// Blocks that do not count as a surface.
pub open spec fn is_air_name(n: Seq<char>) -> bool {
    n == "minecraft:air"@ || n == "minecraft:cave_air"@ || n == "minecraft:void_air"@
}

/// Still or flowing water.
pub open spec fn is_water_name(n: Seq<char>) -> bool {
    n == "minecraft:water"@ || n == "minecraft:flowing_water"@
}

/// Whether a block name is air (and so never a surface).
pub fn is_air(name: &str) -> (r: bool)
    ensures
        r == is_air_name(name@),
{
    str_eq(name, "minecraft:air") || str_eq(name, "minecraft:cave_air") || str_eq(
        name,
        "minecraft:void_air",
    )
}

/// Whether a block name is a (flowing or still) water block.
pub fn is_water(name: &str) -> (r: bool)
    ensures
        r == is_water_name(name@),
{
    str_eq(name, "minecraft:water") || str_eq(name, "minecraft:flowing_water")
}

/// Number of binary digits of `v` (0 for 0).
pub open spec fn bit_length(v: nat) -> nat
    decreases v,
{
    if v == 0 {
        0
    } else {
        1 + bit_length(v / 2)
    }
}

/// Bits per packed index for a palette of `palette_size` entries: enough to
/// index every entry, and at least 4.
pub open spec fn bits_for(palette_size: int) -> int {
    if palette_size <= 1 {
        4
    } else if bit_length((palette_size - 1) as nat) < 4 {
        4
    } else {
        bit_length((palette_size - 1) as nat) as int
    }
}

/// The `index`-th `bits`-wide entry of a packed long array: entries never
/// straddle two longs, and fill each long from its low bits upward.
pub open spec fn packed_entry(data: Seq<i64>, index: int, bits: int) -> int {
    let per_long = 64int / bits;
    let word = data[index / per_long] as u64;
    (word as int / pow2(((index % per_long) * bits) as nat) as int) % pow2(bits as nat) as int
}

/// Position of block `(x, local_y, z)` inside a section's block array.
pub open spec fn block_index(local_y: int, x: int, z: int) -> int {
    local_y * 256 + z * 16 + x
}

/// The packed array of a section holds the long that stores block
/// `(x, local_y, z)`, or the section stores no packed array to read.
pub open spec fn read_in_bounds(sec: Section, local_y: int, x: int, z: int) -> bool {
    match sec.block_states {
        None => true,
        Some(bs) => bs.palette@.len() == 0 || match bs.data {
            None => true,
            Some(d) => block_index(local_y, x, z) / (64int / bits_for(bs.palette@.len() as int)) < d@.len(),
        },
    }
}

/// The block name stored at `(x, local_y, z)` of a section, or `None` when the
/// section stores no blocks, the packed index is outside the palette, or the
/// packed array ends before that block (see [`surface_reads_in_bounds`] for
/// why such a block never decides a surface).
pub open spec fn section_block(sec: Section, local_y: int, x: int, z: int) -> Option<Seq<char>> {
    match sec.block_states {
        None => None,
        Some(bs) => {
            if bs.palette@.len() == 0 {
                None
            } else {
                match bs.data {
                    None => Some(bs.palette@[0].name@),
                    Some(d) => {
                        if !read_in_bounds(sec, local_y, x, z) {
                            None
                        } else {
                            let idx = packed_entry(
                                d@,
                                block_index(local_y, x, z),
                                bits_for(bs.palette@.len() as int),
                            ) as usize as int;
                            if idx < bs.palette@.len() {
                                Some(bs.palette@[idx].name@)
                            } else {
                                None
                            }
                        }
                    },
                }
            }
        },
    }
}

/// A section whose palette length fits the machine's index range.
pub open spec fn section_wf(sec: Section) -> bool {
    match sec.block_states {
        None => true,
        Some(bs) => bs.palette@.len() <= isize::MAX,
    }
}

/// Every section of the chunk is well formed.
pub open spec fn chunk_wf(chunk: Chunk) -> bool {
    forall|i: int| 0 <= i < chunk.sections@.len() ==> #[trigger] section_wf(chunk.sections@[i])
}

/// Whether a block is a candidate: never air, and not water when looking for
/// the floor beneath a water surface.
pub open spec fn counts(n: Seq<char>, skip_water: bool) -> bool {
    !is_air_name(n) && !(skip_water && is_water_name(n))
}

/// The highest local Y below `limit` at which the section holds a candidate
/// block in column `(x, z)`.
pub open spec fn top_local(sec: Section, x: int, z: int, limit: int, skip_water: bool) -> Option<int>
    decreases limit,
{
    if limit <= 0 {
        None
    } else {
        match section_block(sec, limit - 1, x, z) {
            Some(n) => if counts(n, skip_water) {
                Some(limit - 1)
            } else {
                top_local(sec, x, z, limit - 1, skip_water)
            },
            None => top_local(sec, x, z, limit - 1, skip_water),
        }
    }
}

/// How many of a section's local heights lie strictly below absolute height
/// `below`.
pub open spec fn local_limit(sec_y: int, below: int) -> int {
    let l = below - sec_y * 16;
    if l < 0 {
        0
    } else if l > 16 {
        16
    } else {
        l
    }
}

/// The section's highest candidate strictly below `below`, as (name, absolute Y).
pub open spec fn section_candidate(sec: Section, x: int, z: int, below: int, skip_water: bool) -> Option<
    (Seq<char>, int),
> {
    match top_local(sec, x, z, local_limit(sec.y as int, below), skip_water) {
        Some(ly) => Some((section_block(sec, ly, x, z)->0, sec.y * 16 + ly)),
        None => None,
    }
}

/// The highest candidate block of column `(x, z)` strictly below `below`
/// over the given sections, as (name, absolute Y). Among candidates at the
/// same height, the one in the earliest section wins.
pub open spec fn highest_block(secs: Seq<Section>, x: int, z: int, below: int, skip_water: bool) -> Option<
    (Seq<char>, int),
>
    decreases secs.len(),
{
    if secs.len() == 0 {
        None
    } else {
        let prev = highest_block(secs.drop_last(), x, z, below, skip_water);
        match section_candidate(secs.last(), x, z, below, skip_water) {
            None => prev,
            Some(c) => match prev {
                None => Some(c),
                Some(p) => if c.1 > p.1 {
                    Some(c)
                } else {
                    Some(p)
                },
            },
        }
    }
}

/// The surface of column `c` (index `z * 16 + x`): highest non-air block.
pub open spec fn surface(chunk: Chunk, c: int) -> Option<(Seq<char>, int)> {
    highest_block(chunk.sections@, c % 16, c / 16, HEIGHT_LIMIT as int, false)
}

/// The block seen through a water surface at height `top_y` in column `c`.
pub open spec fn floor_under(chunk: Chunk, c: int, top_y: int) -> Option<Seq<char>> {
    match highest_block(chunk.sections@, c % 16, c / 16, top_y, true) {
        Some(p) => Some(p.0),
        None => None,
    }
}

/// Column `c` of `top` records the surface of `chunk`, and for a water
/// surface the floor beneath it.
pub open spec fn column_matches(chunk: Chunk, top: ChunkTop, c: int) -> bool {
    match surface(chunk, c) {
        None => {
            &&& top.blocks@[c] is None
            &&& top.heights@[c] is None
            &&& top.under@[c] is None
        },
        Some(s) => {
            &&& name_of(top.blocks@[c]) == Some(s.0)
            &&& top.heights@[c] == Some(s.1 as i32)
            &&& name_of(top.under@[c]) == if is_water_name(s.0) {
                floor_under(chunk, c, s.1)
            } else {
                None
            }
        },
    }
}

/// `top` holds one entry per column in each of its grids.
pub open spec fn top_sized(top: ChunkTop) -> bool {
    &&& top.blocks@.len() == COLUMNS
    &&& top.heights@.len() == COLUMNS
    &&& top.under@.len() == COLUMNS
}

/// The reads a surface scan makes in section `sec` for column `c` stay
/// inside the section's packed array. Scanning sections from the highest
/// down, a section is read from its top block whenever it reaches up to the
/// column's surface (or the column has none); under a water surface at height
/// `t`, a section below `t` is read from just under `t` whenever it reaches up
/// to the floor beneath the water (or there is none). Reads are made from the
/// highest block down, so the first read of a section is its largest index.
pub open spec fn column_reads_ok(chunk: Chunk, sec: Section, c: int) -> bool {
    let x = c % 16;
    let z = c / 16;
    match surface(chunk, c) {
        None => read_in_bounds(sec, 15, x, z),
        Some(s) => {
            &&& sec.y * 16 + 15 >= s.1 ==> read_in_bounds(sec, 15, x, z)
            &&& (is_water_name(s.0) && sec.y * 16 <= s.1 - 1 && match highest_block(
                chunk.sections@,
                x,
                z,
                s.1,
                true,
            ) {
                None => true,
                Some(f) => sec.y * 16 + 15 >= f.1,
            }) ==> read_in_bounds(
                sec,
                if s.1 - 1 - sec.y * 16 > 15 {
                    15
                } else {
                    s.1 - 1 - sec.y * 16
                },
                x,
                z,
            )
        },
    }
}

/// Every read of the surface scan stays inside the packed arrays (see
/// [`column_reads_ok`]). Sections reaching no higher than the surface (or the
/// floor under water) are never read, so a block past the end of a short
/// array below them never decides a surface.
pub open spec fn surface_reads_in_bounds(chunk: Chunk) -> bool {
    forall|c: int, i: int|
        0 <= c < COLUMNS && 0 <= i < chunk.sections@.len() ==> #[trigger] column_reads_ok(
            chunk,
            chunk.sections@[i],
            c,
        )
}

/// `top` is the surface of `chunk`.
pub open spec fn is_surface_of(chunk: Chunk, top: ChunkTop) -> bool {
    &&& top.blocks@.len() == COLUMNS
    &&& top.heights@.len() == COLUMNS
    &&& top.under@.len() == COLUMNS
    &&& forall|c: int| 0 <= c < COLUMNS ==> #[trigger] column_matches(chunk, top, c)
}


/// Whether the block at `(x, local_y, z)` of a section is a candidate.
pub open spec fn block_counts(sec: Section, local_y: int, x: int, z: int, skip_water: bool) -> bool {
    section_block(sec, local_y, x, z) matches Some(n) && counts(n, skip_water)
}

proof fn lemma_top_local(sec: Section, x: int, z: int, limit: int, skip_water: bool)
    ensures
        match top_local(sec, x, z, limit, skip_water) {
            Some(ly) => {
                &&& 0 <= ly < limit
                &&& block_counts(sec, ly, x, z, skip_water)
                &&& forall|k: int| ly < k < limit ==> !block_counts(sec, k, x, z, skip_water)
            },
            None => forall|k: int| 0 <= k < limit ==> !block_counts(sec, k, x, z, skip_water),
        },
    decreases limit,
{
    if limit > 0 {
        lemma_top_local(sec, x, z, limit - 1, skip_water);
    }
}

/// The surface law: the block a column reports is a candidate block stored
/// in one of the sections at exactly the reported height (below the bound),
/// and no candidate block of the column below the bound lies higher. When no
/// block is reported, the column holds no candidate block below the bound.
pub proof fn lemma_highest_block_is_highest(
    secs: Seq<Section>,
    x: int,
    z: int,
    below: int,
    skip_water: bool,
)
    ensures
        match highest_block(secs, x, z, below, skip_water) {
            Some(p) => {
                &&& exists|i: int, ly: int|
                    #![trigger block_counts(secs[i], ly, x, z, skip_water)]
                    0 <= i < secs.len() && 0 <= ly < 16 && block_counts(
                        secs[i],
                        ly,
                        x,
                        z,
                        skip_water,
                    ) && section_block(secs[i], ly, x, z) == Some(p.0) && p.1 == secs[i].y * 16
                        + ly
                &&& p.1 < below
                &&& counts(p.0, skip_water)
                &&& forall|i: int, ly: int|
                    0 <= i < secs.len() && 0 <= ly < 16 && secs[i].y * 16 + ly < below
                        && #[trigger] block_counts(secs[i], ly, x, z, skip_water) ==> secs[i].y * 16
                        + ly <= p.1
            },
            None => forall|i: int, ly: int|
                0 <= i < secs.len() && 0 <= ly < 16 && secs[i].y * 16 + ly < below
                    ==> !#[trigger] block_counts(secs[i], ly, x, z, skip_water),
        },
    decreases secs.len(),
{
    if secs.len() > 0 {
        let init = secs.drop_last();
        let last = secs.last();
        lemma_highest_block_is_highest(init, x, z, below, skip_water);
        let lim = local_limit(last.y as int, below);
        lemma_top_local(last, x, z, lim, skip_water);
        assert forall|i: int| 0 <= i < init.len() implies init[i] == secs[i] by {}
        assert(secs[secs.len() - 1] == last);
    }
}

proof fn lemma_bit_length_bound(v: nat, k: nat)
    requires
        v < pow2(k),
    ensures
        bit_length(v) <= k,
    decreases v,
{
    if v != 0 {
        if k == 0 {
            vstd::arithmetic::power2::lemma2_to64();
        } else {
            vstd::arithmetic::power2::lemma_pow2_unfold(k);
            lemma_bit_length_bound(v / 2, (k - 1) as nat);
        }
    }
}

/// Number of bits per packed index for a palette of the given size.
///
/// Minecraft uses at least 4 bits per block for block states.
pub fn bits_per_block(palette_size: usize) -> (bits: usize)
    requires
        palette_size <= isize::MAX,
    ensures
        bits == bits_for(palette_size as int),
        4 <= bits < 64,
{
    if palette_size <= 1 {
        return 4;
    }
    let ghost orig = (palette_size - 1) as nat;
    proof {
        vstd::arithmetic::power2::lemma2_to64_rest();
        lemma_bit_length_bound(orig, 63);
    }
    let mut v = palette_size - 1;
    let mut bits: usize = 0;
    while v > 0
        invariant
            bits + bit_length(v as nat) == bit_length(orig),
            bit_length(orig) <= 63,
        decreases v,
    {
        v = v / 2;
        bits = bits + 1;
    }
    if bits < 4 {
        4
    } else {
        bits
    }
}

/// Read one packed palette index from a long array.
pub fn read_packed_index(data: &[i64], index: usize, bits: usize, entries_per_long: usize, mask: u64) -> (r:
    usize)
    requires
        4 <= bits < 64,
        entries_per_long == 64usize / bits,
        mask == low_bits_mask(bits as nat),
        entries_per_long > 0,
        index / entries_per_long < data@.len(),
    ensures
        r == packed_entry(data@, index as int, bits as int) as usize,
{
    let long_index = index / entries_per_long;
    let index_inside_long = index % entries_per_long;
    assert(index_inside_long * bits < 64) by (nonlinear_arith)
        requires
            index_inside_long < entries_per_long,
            entries_per_long == 64usize / bits,
            4 <= bits,
    ;
    let bit_offset = index_inside_long * bits;
    let value = data[long_index] as u64;
    let shifted = value >> (bit_offset as u64);
    proof {
        lemma_u64_shr_is_div(value, bit_offset as u64);
        lemma_u64_low_bits_mask_is_mod(shifted, bits as nat);
        lemma_u64_pow2_no_overflow(bits as nat);
        lemma_pow2_pos(bit_offset as nat);
    }
    (shifted & mask) as usize
}

/// Read the name of the block at `(x, local_y, z)` inside a section.
///
/// Returns `None` when the section has no block states or an empty palette,
/// when the packed index falls outside the palette, or when the packed array
/// ends before the block.
fn read_block_at(section: &Section, local_y: usize, x: usize, z: usize) -> (r: Option<&String>)
    requires
        local_y < 16,
        x < 16,
        z < 16,
        section_wf(*section),
    ensures
        match r {
            Some(s) => section_block(*section, local_y as int, x as int, z as int) == Some(s@),
            None => section_block(*section, local_y as int, x as int, z as int) is None,
        },
{
    let block_states = match &section.block_states {
        Some(bs) => bs,
        None => {
            return None;
        },
    };
    if block_states.palette.len() == 0 {
        return None;
    }
    match &block_states.data {
        None => Some(&block_states.palette[0].name),
        Some(data) => {
            let bits = bits_per_block(block_states.palette.len());
            let entries_per_long = 64 / bits;
            proof {
                lemma_u64_pow2_no_overflow(bits as nat);
                lemma_u64_shl_is_mul(1u64, bits as u64);
            }
            let mask = (1u64 << (bits as u64)) - 1;
            proof {
                vstd::arithmetic::div_mod::lemma_div_is_ordered(bits as int, 64, bits as int);
                vstd::arithmetic::div_mod::lemma_div_by_self(bits as int);
            }
            assert(entries_per_long > 0);
            let index = local_y * 256 + z * 16 + x;
            if index / entries_per_long >= data.len() {
                return None;
            }
            let palette_index = read_packed_index(data.as_slice(), index, bits, entries_per_long, mask);
            if palette_index < block_states.palette.len() {
                Some(&block_states.palette[palette_index].name)
            } else {
                None
            }
        },
    }
}

/// The section's highest candidate strictly below absolute height `below`.
fn section_top(section: &Section, x: usize, z: usize, below: i32, skip_water: bool) -> (r: Option<
    (String, i32),
>)
    requires
        x < 16,
        z < 16,
        section_wf(*section),
        -HEIGHT_LIMIT <= below <= HEIGHT_LIMIT,
    ensures
        match r {
            Some(p) => section_candidate(*section, x as int, z as int, below as int, skip_water)
                == Some((p.0@, p.1 as int)),
            None => section_candidate(*section, x as int, z as int, below as int, skip_water) is None,
        },
        r matches Some(p) ==> -HEIGHT_LIMIT <= p.1 < below,
{
    let base: i32 = section.y as i32 * 16;
    let l: i32 = below - base;
    let limit: usize = if l < 0 {
        0
    } else if l > 16 {
        16
    } else {
        l as usize
    };
    let ghost lim = limit as int;
    let mut k: usize = limit;
    while k > 0
        invariant
            k <= limit <= 16,
            lim == limit,
            base == section.y as i32 * 16,
            limit as int == local_limit(section.y as int, below as int),
            x < 16,
            z < 16,
            section_wf(*section),
            top_local(*section, x as int, z as int, lim, skip_water) == top_local(
                *section,
                x as int,
                z as int,
                k as int,
                skip_water,
            ),
        decreases k,
    {
        k = k - 1;
        match read_block_at(section, k, x, z) {
            Some(n) => {
                let air = is_air(n.as_str());
                let water = is_water(n.as_str());
                if !air && !(skip_water && water) {
                    return Some((n.clone(), base + k as i32));
                }
            },
            None => {},
        }
    }
    None
}

/// The highest candidate block of column `(x, z)` strictly below `below`
/// across all sections of the chunk.
fn highest_in_chunk(chunk: &Chunk, x: usize, z: usize, below: i32, skip_water: bool) -> (r: Option<
    (String, i32),
>)
    requires
        x < 16,
        z < 16,
        chunk_wf(*chunk),
        -HEIGHT_LIMIT <= below <= HEIGHT_LIMIT,
    ensures
        match r {
            Some(p) => highest_block(chunk.sections@, x as int, z as int, below as int, skip_water)
                == Some((p.0@, p.1 as int)),
            None => highest_block(chunk.sections@, x as int, z as int, below as int, skip_water) is None,
        },
        r matches Some(p) ==> -HEIGHT_LIMIT <= p.1 < below,
{
    let mut best: Option<(String, i32)> = None;
    let mut i: usize = 0;
    while i < chunk.sections.len()
        invariant
            0 <= i <= chunk.sections@.len(),
            x < 16,
            z < 16,
            chunk_wf(*chunk),
            -HEIGHT_LIMIT <= below <= HEIGHT_LIMIT,
            match best {
                Some(p) => highest_block(
                    chunk.sections@.take(i as int),
                    x as int,
                    z as int,
                    below as int,
                    skip_water,
                ) == Some((p.0@, p.1 as int)),
                None => highest_block(
                    chunk.sections@.take(i as int),
                    x as int,
                    z as int,
                    below as int,
                    skip_water,
                ) is None,
            },
            best matches Some(p) ==> -HEIGHT_LIMIT <= p.1 < below,
        decreases chunk.sections@.len() - i,
    {
        assert(chunk.sections@.take(i + 1).drop_last() =~= chunk.sections@.take(i as int));
        assert(section_wf(chunk.sections@[i as int]));
        let cand = section_top(&chunk.sections[i], x, z, below, skip_water);
        match cand {
            Some(c) => {
                let replace = match &best {
                    None => true,
                    Some(p) => c.1 > p.1,
                };
                if replace {
                    best = Some(c);
                }
            },
            None => {},
        }
        i = i + 1;
    }
    assert(chunk.sections@.take(i as int) =~= chunk.sections@);
    best
}

/// Whether the packed array of a section holds block `(x, local_y, z)`, or
/// the section has no packed array to read (see [`read_in_bounds`]).
fn read_ok(sec: &Section, local_y: usize, x: usize, z: usize) -> (r: bool)
    requires
        local_y < 16,
        x < 16,
        z < 16,
        section_wf(*sec),
    ensures
        r == read_in_bounds(*sec, local_y as int, x as int, z as int),
{
    match &sec.block_states {
        None => true,
        Some(bs) => {
            if bs.palette.len() == 0 {
                return true;
            }
            match &bs.data {
                None => true,
                Some(d) => {
                    let bits = bits_per_block(bs.palette.len());
                    let per_long = 64 / bits;
                    assert(per_long > 0) by (nonlinear_arith)
                        requires
                            4 <= bits < 64,
                            per_long == 64usize / bits,
                    ;
                    (local_y * 256 + z * 16 + x) / per_long < d.len()
                },
            }
        },
    }
}

/// Whether every section's palette length fits the machine's index range.
fn palettes_fit(chunk: &Chunk) -> (r: bool)
    ensures
        r == chunk_wf(*chunk),
{
    let mut i: usize = 0;
    while i < chunk.sections.len()
        invariant
            i <= chunk.sections@.len(),
            forall|j: int| 0 <= j < i ==> #[trigger] section_wf(chunk.sections@[j]),
        decreases chunk.sections@.len() - i,
    {
        match &chunk.sections[i].block_states {
            Some(bs) => {
                if bs.palette.len() > isize::MAX as usize {
                    assert(!section_wf(chunk.sections@[i as int]));
                    return false;
                }
            },
            None => {},
        }
        i = i + 1;
    }
    true
}

/// Whether a chunk can be scanned for its surface: every palette length fits
/// the machine's index range and every read of the scan stays inside the
/// packed arrays (see [`surface_reads_in_bounds`]).
pub fn chunk_is_readable(chunk: &Chunk) -> (r: bool)
    ensures
        r == (chunk_wf(*chunk) && surface_reads_in_bounds(*chunk)),
{
    if !palettes_fit(chunk) {
        return false;
    }
    let mut c: usize = 0;
    while c < COLUMNS
        invariant
            c <= COLUMNS,
            chunk_wf(*chunk),
            forall|cc: int, j: int|
                0 <= cc < c && 0 <= j < chunk.sections@.len() ==> #[trigger] column_reads_ok(
                    *chunk,
                    chunk.sections@[j],
                    cc,
                ),
        decreases COLUMNS - c,
    {
        let x = c % 16;
        let z = c / 16;
        let top = highest_in_chunk(chunk, x, z, HEIGHT_LIMIT, false);
        let floor: Option<(String, i32)> = match &top {
            Some(t) => {
                if is_water(t.0.as_str()) {
                    highest_in_chunk(chunk, x, z, t.1, true)
                } else {
                    None
                }
            },
            None => None,
        };
        let mut j: usize = 0;
        while j < chunk.sections.len()
            invariant
                c < COLUMNS,
                x == c % 16,
                z == c / 16,
                j <= chunk.sections@.len(),
                chunk_wf(*chunk),
                match top {
                    Some(p) => surface(*chunk, c as int) == Some((p.0@, p.1 as int)),
                    None => surface(*chunk, c as int) is None,
                },
                top matches Some(p) ==> -HEIGHT_LIMIT <= p.1 < HEIGHT_LIMIT,
                match top {
                    Some(p) => is_water_name(p.0@) ==> match floor {
                        Some(f) => highest_block(chunk.sections@, x as int, z as int, p.1 as int, true) == Some(
                            (f.0@, f.1 as int),
                        ),
                        None => highest_block(chunk.sections@, x as int, z as int, p.1 as int, true) is None,
                    },
                    None => true,
                },
                floor matches Some(f) ==> -HEIGHT_LIMIT <= f.1,
                forall|cc: int, jj: int|
                    0 <= cc < c && 0 <= jj < chunk.sections@.len() ==> #[trigger] column_reads_ok(
                        *chunk,
                        chunk.sections@[jj],
                        cc,
                    ),
                forall|jj: int| 0 <= jj < j ==> #[trigger] column_reads_ok(*chunk, chunk.sections@[jj], c as int),
            decreases chunk.sections@.len() - j,
        {
            let sec = &chunk.sections[j];
            assert(section_wf(chunk.sections@[j as int]));
            let top_ok = match &top {
                None => read_ok(sec, 15, x, z),
                Some(t) => {
                    if sec.y as i32 * 16 + 15 >= t.1 {
                        read_ok(sec, 15, x, z)
                    } else {
                        true
                    }
                },
            };
            if !top_ok {
                assert(!column_reads_ok(*chunk, chunk.sections@[j as int], c as int));
                return false;
            }
            let water_ok = match &top {
                Some(t) => {
                    let base = sec.y as i32 * 16;
                    let reaches_floor = match &floor {
                        None => true,
                        Some(f) => base + 15 >= f.1,
                    };
                    if is_water(t.0.as_str()) && base <= t.1 - 1 && reaches_floor {
                        let l = if t.1 - 1 - base > 15 {
                            15
                        } else {
                            t.1 - 1 - base
                        };
                        read_ok(sec, l as usize, x, z)
                    } else {
                        true
                    }
                },
                None => true,
            };
            if !water_ok {
                assert(!column_reads_ok(*chunk, chunk.sections@[j as int], c as int));
                return false;
            }
            assert(column_reads_ok(*chunk, chunk.sections@[j as int], c as int));
            j = j + 1;
        }
        c = c + 1;
    }
    true
}

/// Extract the highest non-air block of every x/z column, its absolute Y, and
/// for water surfaces the first solid block beneath it.
///
/// The output holds 256 entries, `index = z * 16 + x`. The chunk must be one
/// whose surface scan reads only inside its packed block arrays (see
/// [`chunk_is_readable`]).
pub fn get_top_blocks(chunk: &Chunk) -> (top: ChunkTop)
    requires
        chunk_wf(*chunk),
        surface_reads_in_bounds(*chunk),
    ensures
        is_surface_of(*chunk, top),
{
    let mut blocks: Vec<Option<String>> = Vec::new();
    let mut heights: Vec<Option<i32>> = Vec::new();
    let mut under: Vec<Option<String>> = Vec::new();
    let mut c: usize = 0;
    while c < COLUMNS
        invariant
            0 <= c <= COLUMNS,
            chunk_wf(*chunk),
            blocks@.len() == c,
            heights@.len() == c,
            under@.len() == c,
            forall|j: int|
                0 <= j < c ==> #[trigger] column_matches(
                    *chunk,
                    ChunkTop { blocks, heights, under },
                    j,
                ),
        decreases COLUMNS - c,
    {
        let x = c % 16;
        let z = c / 16;
        let ghost old_blocks = blocks;
        let ghost old_heights = heights;
        let ghost old_under = under;
        match highest_in_chunk(chunk, x, z, HEIGHT_LIMIT, false) {
            None => {
                blocks.push(None);
                heights.push(None);
                under.push(None);
            },
            Some(t) => {
                let (name, h) = t;
                let floor = if is_water(name.as_str()) {
                    match highest_in_chunk(chunk, x, z, h, true) {
                        Some(f) => Some(f.0),
                        None => None,
                    }
                } else {
                    None
                };
                blocks.push(Some(name));
                heights.push(Some(h));
                under.push(floor);
            },
        }
        assert forall|j: int| 0 <= j < c + 1 implies #[trigger] column_matches(
            *chunk,
            ChunkTop { blocks, heights, under },
            j,
        ) by {
            if j < c {
                assert(column_matches(
                    *chunk,
                    ChunkTop { blocks: old_blocks, heights: old_heights, under: old_under },
                    j,
                ));
                assert(blocks@[j] == old_blocks@[j]);
                assert(heights@[j] == old_heights@[j]);
                assert(under@[j] == old_under@[j]);
            }
        }
        c = c + 1;
    }
    ChunkTop { blocks, heights, under }
}

} // verus!
