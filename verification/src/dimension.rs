//! Dimension identity and on-disk region folder choice.
//!
//! Maps a dimension id to its name, its non-overworld "kind" (if any), and
//! the candidate region folders on disk, and decides which folder holds a
//! dimension. The legacy `DIM1/region` / `DIM-1/region` folders are
//! disambiguated by the signature blocks their chunks contain.

use vstd::prelude::*;

use crate::chunk::{top_sized, ChunkTop, COLUMNS};
use crate::color::opt_chars;
use crate::text::{chars_of, decimal, push_decimal, push_str, starts_with, str_eq, string_from_chars};

verus! {

/// Which non-overworld dimension a chunk's blocks tell us it belongs to.
///
/// Only used to disambiguate the legacy `DIM1` / `DIM-1` folders, whose names
/// do not reliably indicate which dimension they actually hold.
#[derive(Clone, Copy, Debug, PartialEq, Eq, Structural)]
pub enum DimKind {
    Nether,
    End,
}

/// A supported dimension and where its region files live on disk.
#[derive(Debug)]
pub struct DimensionInfo {
    /// Human-readable name, e.g. "overworld".
    pub name: &'static str,
    /// What non-overworld dimension this is, used to match legacy region
    /// folders by their actual block content. `None` for the overworld.
    pub kind: Option<DimKind>,
    /// Candidate region folders (relative to the world folder), in order of
    /// preference. The modern `dimensions/minecraft:<name>/region` folders
    /// are named after the dimension; the legacy `DIM1/region` and
    /// `DIM-1/region` folders are listed for both non-overworld dimensions
    /// and disambiguated by content.
    pub region_candidates: Vec<&'static str>,
    /// Prefix of per-chunk output file names, so that different dimensions
    /// do not overwrite one another. Empty for the overworld.
    pub out_prefix: &'static str,
    /// File name of the single-image output.
    pub out_file: &'static str,
}

/// The text of a dimension's fields.
pub open spec fn dimension_fields(
    d: DimensionInfo,
) -> (Seq<char>, Option<DimKind>, Seq<Seq<char>>, Seq<char>, Seq<char>) {
    (d.name@, d.kind, d.region_candidates@.map_values(|c: &'static str| c@), d.out_prefix@, d.out_file@)
}

/// The supported dimensions: `0` the overworld (`region/`), `1` the nether,
/// `-1` the end, with their candidate region folders and output names.
pub open spec fn dimension_spec(id: i32) -> Option<(Seq<char>, Option<DimKind>, Seq<Seq<char>>, Seq<char>, Seq<char>)> {
    if id == 0 {
        Some(("overworld"@, None, seq!["region"@], ""@, "world.png"@))
    } else if id == 1 {
        Some(
            (
                "the_nether"@,
                Some(DimKind::Nether),
                seq!["dimensions/minecraft:the_nether/region"@, "DIM1/region"@, "DIM-1/region"@],
                "the_nether_"@,
                "the_nether.png"@,
            ),
        )
    } else if id == -1 {
        Some(
            (
                "the_end"@,
                Some(DimKind::End),
                seq!["dimensions/minecraft:the_end/region"@, "DIM1/region"@, "DIM-1/region"@],
                "the_end_"@,
                "the_end.png"@,
            ),
        )
    } else {
        None
    }
}

/// The message for an unsupported dimension id.
pub open spec fn unknown_dimension_message(id: i32) -> Seq<char> {
    "Unknown dimension id "@ + decimal(id as int) + ". Valid ids: 0 (overworld), 1 (the nether), -1 (the end)."@
}

/// Map a dimension id to its on-disk region folders and output naming.
///
/// Dimension ids follow Minecraft's classic convention: `0` is the
/// overworld, `1` the nether and `-1` the end. Any other id is rejected with
/// a message listing the valid values.
pub fn dimension_info(id: i32) -> (r: Result<DimensionInfo, String>)
    ensures
        match r {
            Ok(d) => dimension_spec(id) == Some(dimension_fields(d)),
            Err(e) => dimension_spec(id) is None && e@ == unknown_dimension_message(id),
        },
{
    if id == 0 {
        let cands: Vec<&'static str> = vec!["region"];
        let d = DimensionInfo { name: "overworld", kind: None, region_candidates: cands, out_prefix: "", out_file: "world.png" };
        assert(d.region_candidates@.map_values(|c: &'static str| c@) =~= seq!["region"@]);
        Ok(d)
    } else if id == 1 {
        let cands: Vec<&'static str> = vec![
            "dimensions/minecraft:the_nether/region",
            "DIM1/region",
            "DIM-1/region",
        ];
        let d = DimensionInfo {
            name: "the_nether",
            kind: Some(DimKind::Nether),
            region_candidates: cands,
            out_prefix: "the_nether_",
            out_file: "the_nether.png",
        };
        assert(d.region_candidates@.map_values(|c: &'static str| c@) =~= seq![
            "dimensions/minecraft:the_nether/region"@,
            "DIM1/region"@,
            "DIM-1/region"@,
        ]);
        Ok(d)
    } else if id == -1 {
        let cands: Vec<&'static str> = vec![
            "dimensions/minecraft:the_end/region",
            "DIM1/region",
            "DIM-1/region",
        ];
        let d = DimensionInfo {
            name: "the_end",
            kind: Some(DimKind::End),
            region_candidates: cands,
            out_prefix: "the_end_",
            out_file: "the_end.png",
        };
        assert(d.region_candidates@.map_values(|c: &'static str| c@) =~= seq![
            "dimensions/minecraft:the_end/region"@,
            "DIM1/region"@,
            "DIM-1/region"@,
        ]);
        Ok(d)
    } else {
        let mut out: Vec<char> = Vec::new();
        push_str(&mut out, "Unknown dimension id ");
        push_decimal(&mut out, id as i64);
        push_str(&mut out, ". Valid ids: 0 (overworld), 1 (the nether), -1 (the end).");
        Err(string_from_chars(out.as_slice()))
    }
}

/// A region folder candidate of the modern layout, named after its
/// dimension and therefore unambiguous.
pub open spec fn is_modern_candidate(c: Seq<char>) -> bool {
    crate::text::has_prefix(c, "dimensions/minecraft:"@)
}

/// Whether a region folder candidate is of the modern, dimension-named
/// layout.
pub fn modern_candidate(c: &str) -> (r: bool)
    ensures
        r == is_modern_candidate(c@),
{
    starts_with(&chars_of(c), "dimensions/minecraft:")
}

/// The index of the first candidate satisfying `ok` among the first `k`,
/// if any.
pub open spec fn first_match(ok: spec_fn(int) -> bool, k: int) -> Option<int>
    decreases k,
{
    if k <= 0 {
        None
    } else {
        match first_match(ok, k - 1) {
            Some(i) => Some(i),
            None => if ok(k - 1) {
                Some(k - 1)
            } else {
                None
            },
        }
    }
}

/// The region folder that holds a dimension, among its candidates.
///
/// `is_dir[i]` tells whether candidate `i` exists as a directory and
/// `content[i]` what dimension the blocks of that folder show. The overworld
/// takes its first existing candidate. Otherwise a modern, dimension-named
/// folder that exists is used as-is; failing that, the first existing legacy
/// folder whose content matches the dimension's kind. `None` when no folder
/// matches.
pub open spec fn chosen_region_dir(
    cands: Seq<Seq<char>>,
    kind: Option<DimKind>,
    is_dir: Seq<bool>,
    content: Seq<Option<DimKind>>,
) -> Option<int> {
    match kind {
        None => first_match(|i: int| is_dir[i], cands.len() as int),
        Some(k) => match first_match(|i: int| is_modern_candidate(cands[i]) && is_dir[i], cands.len() as int) {
            Some(i) => Some(i),
            None => first_match(
                |i: int| !is_modern_candidate(cands[i]) && is_dir[i] && content[i] == Some(k),
                cands.len() as int,
            ),
        },
    }
}

fn first_index(flags: &Vec<bool>) -> (r: Option<usize>)
    ensures
        match r {
            Some(i) => first_match(|j: int| flags@[j], flags@.len() as int) == Some(i as int),
            None => first_match(|j: int| flags@[j], flags@.len() as int) is None,
        },
{
    let ghost ok = |j: int| flags@[j];
    let mut i: usize = 0;
    while i < flags.len()
        invariant
            i <= flags@.len(),
            ok == (|j: int| flags@[j]),
            first_match(ok, i as int) is None,
        decreases flags@.len() - i,
    {
        if flags[i] {
            proof {
                lemma_first_match_stays(ok, i as int + 1, flags@.len() as int);
            }
            return Some(i);
        }
        i = i + 1;
    }
    None
}

proof fn lemma_first_match_ext(f: spec_fn(int) -> bool, g: spec_fn(int) -> bool, k: int)
    requires
        forall|i: int| 0 <= i < k ==> #[trigger] f(i) == g(i),
    ensures
        first_match(f, k) == first_match(g, k),
    decreases k,
{
    if k > 0 {
        lemma_first_match_ext(f, g, k - 1);
    }
}

proof fn lemma_first_match_stays(ok: spec_fn(int) -> bool, a: int, b: int)
    requires
        a <= b,
        first_match(ok, a) is Some,
    ensures
        first_match(ok, b) == first_match(ok, a),
    decreases b - a,
{
    if b > a {
        lemma_first_match_stays(ok, a, b - 1);
    }
}

/// Choose a dimension's region folder (see [`chosen_region_dir`]): the index
/// of the chosen candidate.
pub fn dimension_region_path(
    dim: &DimensionInfo,
    is_dir: &Vec<bool>,
    content: &Vec<Option<DimKind>>,
) -> (r: Option<usize>)
    requires
        is_dir@.len() == dim.region_candidates@.len(),
        content@.len() == dim.region_candidates@.len(),
    ensures
        match r {
            Some(i) => chosen_region_dir(
                dim.region_candidates@.map_values(|c: &'static str| c@),
                dim.kind,
                is_dir@,
                content@,
            ) == Some(i as int),
            None => chosen_region_dir(
                dim.region_candidates@.map_values(|c: &'static str| c@),
                dim.kind,
                is_dir@,
                content@,
            ) is None,
        },
{
    let ghost cands = dim.region_candidates@.map_values(|c: &'static str| c@);
    let n = dim.region_candidates.len();
    let mut flags: Vec<bool> = Vec::new();
    let mut i: usize = 0;
    match dim.kind {
        None => {
            let r = first_index(is_dir);
            assert((|j: int| is_dir@[j]) == (|j: int| is_dir@[j]));
            return r;
        },
        Some(k) => {
            while i < n
                invariant
                    i <= n,
                    n == dim.region_candidates@.len(),
                    is_dir@.len() == n,
                    cands == dim.region_candidates@.map_values(|c: &'static str| c@),
                    flags@.len() == i,
                    forall|j: int| 0 <= j < i ==> #[trigger] flags@[j] == (is_modern_candidate(cands[j]) && is_dir@[j]),
                decreases n - i,
            {
                flags.push(modern_candidate(dim.region_candidates[i]) && is_dir[i]);
                i = i + 1;
            }
            proof {
                lemma_first_match_ext(|j: int| flags@[j], |j: int| is_modern_candidate(cands[j]) && is_dir@[j], n as int);
            }
            match first_index(&flags) {
                Some(m) => {
                    return Some(m);
                },
                None => {},
            }
            let mut legacy: Vec<bool> = Vec::new();
            let mut j: usize = 0;
            while j < n
                invariant
                    j <= n,
                    n == dim.region_candidates@.len(),
                    is_dir@.len() == n,
                    content@.len() == n,
                    cands == dim.region_candidates@.map_values(|c: &'static str| c@),
                    legacy@.len() == j,
                    forall|t: int| 0 <= t < j ==> #[trigger] legacy@[t] == (!is_modern_candidate(cands[t]) && is_dir@[t]
                        && content@[t] == Some(k)),
                decreases n - j,
            {
                let matches_kind = match content[j] {
                    Some(c) => c == k,
                    None => false,
                };
                legacy.push(!modern_candidate(dim.region_candidates[j]) && is_dir[j] && matches_kind);
                j = j + 1;
            }
            proof {
                lemma_first_match_ext(
                    |t: int| legacy@[t],
                    |t: int| !is_modern_candidate(cands[t]) && is_dir@[t] && content@[t] == Some(k),
                    n as int,
                );
            }
            first_index(&legacy)
        },
    }
}

/// Block ids that are a reliable signature of the nether.
pub open spec fn is_nether_signature(n: Seq<char>) -> bool {
    n == "minecraft:netherrack"@ || n == "minecraft:nether_wart_block"@ || n == "minecraft:nether_bricks"@ || n == "minecraft:soul_sand"@ || n == "minecraft:soul_soil"@ || n == "minecraft:crimson_roots"@ || n == "minecraft:warped_roots"@ || n == "minecraft:crimson_stem"@ || n == "minecraft:warped_stem"@ || n == "minecraft:magma_block"@ || n == "minecraft:crimson_fungus"@ || n == "minecraft:warped_fungus"@ || n == "minecraft:weeping_vines"@ || n == "minecraft:twisting_vines"@ || n == "minecraft:shroomlight"@ || n == "minecraft:red_mushroom"@ || n == "minecraft:brown_mushroom"@
}

/// Block ids that are a reliable signature of the end.
pub open spec fn is_end_signature(n: Seq<char>) -> bool {
    n == "minecraft:end_stone"@ || n == "minecraft:ender_chest"@ || n == "minecraft:end_rod"@
}

/// The dimension a block id is a signature of, if any.
pub open spec fn signature_of(n: Seq<char>) -> Option<DimKind> {
    if is_nether_signature(n) {
        Some(DimKind::Nether)
    } else if is_end_signature(n) {
        Some(DimKind::End)
    } else {
        None
    }
}

/// The dimension a block id is a signature of, if any.
pub fn block_signature(name: &str) -> (r: Option<DimKind>)
    ensures
        r == signature_of(name@),
{
    if str_eq(name, "minecraft:netherrack") || str_eq(name, "minecraft:nether_wart_block") || str_eq(name, "minecraft:nether_bricks") || str_eq(name, "minecraft:soul_sand") || str_eq(name, "minecraft:soul_soil") || str_eq(name, "minecraft:crimson_roots") || str_eq(name, "minecraft:warped_roots") || str_eq(name, "minecraft:crimson_stem") || str_eq(name, "minecraft:warped_stem") || str_eq(name, "minecraft:magma_block") || str_eq(name, "minecraft:crimson_fungus") || str_eq(name, "minecraft:warped_fungus") || str_eq(name, "minecraft:weeping_vines") || str_eq(name, "minecraft:twisting_vines") || str_eq(name, "minecraft:shroomlight") || str_eq(name, "minecraft:red_mushroom") || str_eq(name, "minecraft:brown_mushroom") {
        Some(DimKind::Nether)
    } else if str_eq(name, "minecraft:end_stone") || str_eq(name, "minecraft:ender_chest") || str_eq(name, "minecraft:end_rod") {
        Some(DimKind::End)
    } else {
        None
    }
}

/// How many of the first `k` columns of a chunk surface show a signature of
/// dimension `kind`.
pub open spec fn signature_count(top: ChunkTop, kind: DimKind, k: int) -> int
    decreases k,
{
    if k <= 0 {
        0
    } else {
        signature_count(top, kind, k - 1) + match opt_chars(top.blocks@[k - 1]) {
            Some(n) => if signature_of(n) == Some(kind) {
                1int
            } else {
                0int
            },
            None => 0int,
        }
    }
}

/// Add a chunk's signature blocks to the running nether / end tallies: every
/// surface block that is a nether signature counts for the nether, every
/// one that is an end signature for the end.
pub fn tally_signatures(top: &ChunkTop, nether: u32, end: u32) -> (r: (u32, u32))
    requires
        top_sized(*top),
        nether + COLUMNS <= u32::MAX,
        end + COLUMNS <= u32::MAX,
    ensures
        r.0 == nether + signature_count(*top, DimKind::Nether, COLUMNS as int),
        r.1 == end + signature_count(*top, DimKind::End, COLUMNS as int),
{
    let mut n = nether;
    let mut e = end;
    let mut c: usize = 0;
    while c < COLUMNS
        invariant
            top_sized(*top),
            c <= COLUMNS,
            nether + COLUMNS <= u32::MAX,
            end + COLUMNS <= u32::MAX,
            n == nether + signature_count(*top, DimKind::Nether, c as int),
            e == end + signature_count(*top, DimKind::End, c as int),
            signature_count(*top, DimKind::Nether, c as int) <= c,
            signature_count(*top, DimKind::End, c as int) <= c,
        decreases COLUMNS - c,
    {
        match &top.blocks[c] {
            Some(name) => {
                match block_signature(name.as_str()) {
                    Some(DimKind::Nether) => {
                        n = n + 1;
                    },
                    Some(DimKind::End) => {
                        e = e + 1;
                    },
                    None => {},
                }
            },
            None => {},
        }
        c = c + 1;
    }
    (n, e)
}

/// A folder has been sampled enough once the tallies reach 16 signature
/// blocks together.
pub fn sampled_enough(nether: u32, end: u32) -> (r: bool)
    ensures
        r == (nether + end >= 16),
{
    nether as u64 + end as u64 >= 16
}

/// The dimension a folder's signature tallies show: `None` without any
/// signature block, the nether when it has strictly more signatures, the
/// end otherwise.
pub fn classify_counts(nether: u32, end: u32) -> (r: Option<DimKind>)
    ensures
        r == (if nether == 0 && end == 0 {
            None
        } else if nether > end {
            Some(DimKind::Nether)
        } else {
            Some(DimKind::End)
        }),
{
    if nether == 0 && end == 0 {
        None
    } else if nether > end {
        Some(DimKind::Nether)
    } else {
        Some(DimKind::End)
    }
}

} // verus!
