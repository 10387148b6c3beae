//! Region files: file-name coordinates, the chunk location table, chunk
//! extraction through `mca`, and where each chunk lands in the world grids
//! and images.
//!
//! Each `r.X.Z.mca` region file holds a 32x32 grid of chunks. The location
//! table at the start of the file has one 4-byte entry per chunk (index
//! `4 * (x + 32 * z)`); an all-zero entry marks a chunk that is not present.

use vstd::prelude::*;

use crate::chunk::{top_sized, ChunkTop, CHUNK_SIZE, COLUMNS, VOID_H};
use crate::color::{column_light, darken_for, display_color};
use crate::light::{cell, lemma_cell_in_grid};
use crate::render::{
    blit_supersampled, block_painter, cells_for, chunk_image, chunk_image_ss, chunk_image_ss_fx,
    lemma_paint_done, lemma_paint_step, painted, painted_upto, region_night_colors,
    render_into_big, scaled_painter, top_heights, top_lights, Canvas,
};
use crate::text::{chars_of, decimal, parse_i32_chars, parse_i32_spec, push_decimal, push_str, split_chars, split_seq, string_from_chars};

verus! {

/// Chunks per region side.
pub const REGION_CHUNKS: usize = 32;

/// Bytes of a region file's location table.
pub const LOCATION_TABLE_BYTES: usize = 4096;

/// Bytes of a region sector; the two header tables take one sector each.
pub const SECTOR_BYTES: usize = 4096;

/// Bounding box of chunk coordinates, in chunk units (not blocks).
#[derive(Clone, Copy, Debug, PartialEq, Eq, Structural)]
pub struct Bounds {
    pub min_x: i32,
    pub min_z: i32,
    pub max_x: i32,
    pub max_z: i32,
}

/// The smaller of two integers.
pub open spec fn min_i(a: int, b: int) -> int {
    if a < b {
        a
    } else {
        b
    }
}

/// The larger of two integers.
pub open spec fn max_i(a: int, b: int) -> int {
    if a > b {
        a
    } else {
        b
    }
}

impl Bounds {
    /// The chunk `(x, z)` lies inside the box.
    pub open spec fn contains(self, x: int, z: int) -> bool {
        self.min_x <= x <= self.max_x && self.min_z <= z <= self.max_z
    }

    /// The bounding box that encloses both `self` and `other`.
    pub fn merged(&self, other: &Self) -> (b: Self)
        ensures
            b.min_x == min_i(self.min_x as int, other.min_x as int),
            b.min_z == min_i(self.min_z as int, other.min_z as int),
            b.max_x == max_i(self.max_x as int, other.max_x as int),
            b.max_z == max_i(self.max_z as int, other.max_z as int),
    {
        Bounds {
            min_x: if self.min_x < other.min_x { self.min_x } else { other.min_x },
            min_z: if self.min_z < other.min_z { self.min_z } else { other.min_z },
            max_x: if self.max_x > other.max_x { self.max_x } else { other.max_x },
            max_z: if self.max_z > other.max_z { self.max_z } else { other.max_z },
        }
    }
}

/// Merging never loses a chunk: whatever either box contains, the merged box
/// contains.
pub proof fn lemma_merged_covers(a: Bounds, b: Bounds, m: Bounds, x: int, z: int)
    requires
        m.min_x == min_i(a.min_x as int, b.min_x as int),
        m.min_z == min_i(a.min_z as int, b.min_z as int),
        m.max_x == max_i(a.max_x as int, b.max_x as int),
        m.max_z == max_i(a.max_z as int, b.max_z as int),
        a.contains(x, z) || b.contains(x, z),
    ensures
        m.contains(x, z),
{
}

/// Byte offset of chunk `(x, z)`'s entry in the location table.
pub open spec fn location_offset(x: int, z: int) -> int {
    4 * (x + 32 * z)
}

/// Chunk `(x, z)` is present: its location entry lies within the data and is
/// not all zero.
pub open spec fn chunk_listed(data: Seq<u8>, x: int, z: int) -> bool {
    let o = location_offset(x, z);
    o + 4 <= data.len() && !(data[o] == 0 && data[o + 1] == 0 && data[o + 2] == 0 && data[o + 3] == 0)
}

/// Absolute coordinate of local chunk `l` of region `r`.
pub open spec fn chunk_coord(r: int, l: int) -> int {
    r * 32 + l
}

/// The present chunks of a region, as listed by its location table, scanned
/// row by row (`z` then `x`): their count and, when there is one, their
/// bounding box in absolute chunk coordinates.
pub open spec fn listed_summary(
    present: spec_fn(int, int) -> bool,
    region_x: int,
    region_z: int,
    k: int,
) -> (int, Option<Bounds>)
    decreases k,
{
    if k <= 0 {
        (0, None)
    } else {
        let (n, b) = listed_summary(present, region_x, region_z, k - 1);
        let lx = (k - 1) % 32;
        let lz = (k - 1) / 32;
        if present(lx, lz) {
            let cx = chunk_coord(region_x, lx);
            let cz = chunk_coord(region_z, lz);
            (
                n + 1,
                Some(
                    match b {
                        Some(b) => Bounds {
                            min_x: min_i(b.min_x as int, cx) as i32,
                            min_z: min_i(b.min_z as int, cz) as i32,
                            max_x: max_i(b.max_x as int, cx) as i32,
                            max_z: max_i(b.max_z as int, cz) as i32,
                        },
                        None => Bounds { min_x: cx as i32, min_z: cz as i32, max_x: cx as i32, max_z: cz as i32 },
                    },
                ),
            )
        } else {
            (n, b)
        }
    }
}

/// How many of the first `k` chunks of a region, in scan order (entry
/// `x + 32 * z`), are present.
pub open spec fn present_count(present: spec_fn(int, int) -> bool, k: int) -> int
    decreases k,
{
    if k <= 0 {
        0
    } else {
        present_count(present, k - 1) + if present((k - 1) % 32, (k - 1) / 32) {
            1int
        } else {
            0int
        }
    }
}

/// `count` and `bounds` describe the present chunks among the first `k`
/// entries of region `(region_x, region_z)`: `count` of them are present;
/// there is a box exactly when one is; every present chunk lies in the box
/// (in absolute chunk coordinates); and each side of the box is reached by a
/// present chunk.
pub open spec fn boxes_present(
    present: spec_fn(int, int) -> bool,
    region_x: int,
    region_z: int,
    k: int,
    count: int,
    bounds: Option<Bounds>,
) -> bool {
    &&& count == present_count(present, k)
    &&& count >= 0
    &&& (bounds is None <==> count == 0)
    &&& forall|x: int, z: int|
        0 <= x < 32 && 0 <= z < 32 && x + 32 * z < k && #[trigger] present(x, z) ==> (bounds matches Some(b)
            && b.min_x <= region_x * 32 + x <= b.max_x && b.min_z <= region_z * 32 + z <= b.max_z)
    &&& bounds matches Some(b) ==> {
        &&& exists|x: int, z: int|
            0 <= x < 32 && 0 <= z < 32 && x + 32 * z < k && #[trigger] present(x, z) && region_x * 32 + x
                == b.min_x
        &&& exists|x: int, z: int|
            0 <= x < 32 && 0 <= z < 32 && x + 32 * z < k && #[trigger] present(x, z) && region_x * 32 + x
                == b.max_x
        &&& exists|x: int, z: int|
            0 <= x < 32 && 0 <= z < 32 && x + 32 * z < k && #[trigger] present(x, z) && region_z * 32 + z
                == b.min_z
        &&& exists|x: int, z: int|
            0 <= x < 32 && 0 <= z < 32 && x + 32 * z < k && #[trigger] present(x, z) && region_z * 32 + z
                == b.max_z
    }
}

/// Entry `j` of a region's table is chunk `(j % 32, j / 32)`.
proof fn lemma_entry_split(j: int, x: int, z: int)
    requires
        0 <= x < 32,
        0 <= z,
        j == x + 32 * z,
    ensures
        j % 32 == x,
        j / 32 == z,
{
    vstd::arithmetic::div_mod::lemma_fundamental_div_mod_converse(j, 32, z, x);
}

/// The scan summary of a region counts its present chunks and boxes them
/// exactly: every present chunk lies in the box and every side of the box
/// is reached by one (see [`boxes_present`]).
pub proof fn lemma_listed_summary_boxes(present: spec_fn(int, int) -> bool, region_x: i32, region_z: i32, k: int)
    requires
        region_in_range(region_x, region_z),
        0 <= k <= 1024,
    ensures
        boxes_present(
            present,
            region_x as int,
            region_z as int,
            k,
            listed_summary(present, region_x as int, region_z as int, k).0,
            listed_summary(present, region_x as int, region_z as int, k).1,
        ),
    decreases k,
{
    if k > 0 {
        lemma_listed_summary_boxes(present, region_x, region_z, k - 1);
        let j = k - 1;
        let lx = j % 32;
        let lz = j / 32;
        assert(0 <= lx < 32 && 0 <= lz < 32 && j == lx + 32 * lz) by {
            vstd::arithmetic::div_mod::lemma_fundamental_div_mod(j, 32);
        }
        let prev = listed_summary(present, region_x as int, region_z as int, j);
        let cur = listed_summary(present, region_x as int, region_z as int, k);
        let rx = region_x as int;
        let rz = region_z as int;
        assert forall|x: int, z: int|
            0 <= x < 32 && 0 <= z < 32 && x + 32 * z < k && #[trigger] present(x, z) implies (cur.1 matches Some(b)
            && b.min_x <= rx * 32 + x <= b.max_x && b.min_z <= rz * 32 + z <= b.max_z) by {
            if x + 32 * z == j {
                lemma_entry_split(j, x, z);
            }
        }
        if cur.1 is Some && present(lx, lz) {
            let b = cur.1->0;
            if prev.1 is Some {
                let pb = prev.1->0;
                if rx * 32 + lx < pb.min_x {
                    assert(present(lx, lz) && rx * 32 + lx == b.min_x);
                } else {
                    let (x0, z0) = choose|x: int, z: int|
                        0 <= x < 32 && 0 <= z < 32 && x + 32 * z < j && #[trigger] present(x, z) && rx * 32 + x
                            == pb.min_x;
                    assert(present(x0, z0) && x0 + 32 * z0 < k);
                }
                if rx * 32 + lx > pb.max_x {
                    assert(present(lx, lz) && rx * 32 + lx == b.max_x);
                } else {
                    let (x0, z0) = choose|x: int, z: int|
                        0 <= x < 32 && 0 <= z < 32 && x + 32 * z < j && #[trigger] present(x, z) && rx * 32 + x
                            == pb.max_x;
                    assert(present(x0, z0) && x0 + 32 * z0 < k);
                }
                if rz * 32 + lz < pb.min_z {
                    assert(present(lx, lz) && rz * 32 + lz == b.min_z);
                } else {
                    let (x0, z0) = choose|x: int, z: int|
                        0 <= x < 32 && 0 <= z < 32 && x + 32 * z < j && #[trigger] present(x, z) && rz * 32 + z
                            == pb.min_z;
                    assert(present(x0, z0) && x0 + 32 * z0 < k);
                }
                if rz * 32 + lz > pb.max_z {
                    assert(present(lx, lz) && rz * 32 + lz == b.max_z);
                } else {
                    let (x0, z0) = choose|x: int, z: int|
                        0 <= x < 32 && 0 <= z < 32 && x + 32 * z < j && #[trigger] present(x, z) && rz * 32 + z
                            == pb.max_z;
                    assert(present(x0, z0) && x0 + 32 * z0 < k);
                }
            } else {
                assert(present(lx, lz) && rx * 32 + lx == b.min_x);
                assert(present(lx, lz) && rz * 32 + lz == b.min_z);
            }
        }
        if !present(lx, lz) && cur.1 is Some {
            let b = cur.1->0;
            let (x0, z0) = choose|x: int, z: int|
                0 <= x < 32 && 0 <= z < 32 && x + 32 * z < j && #[trigger] present(x, z) && rx * 32 + x == b.min_x;
            assert(present(x0, z0) && x0 + 32 * z0 < k);
            let (x1, z1) = choose|x: int, z: int|
                0 <= x < 32 && 0 <= z < 32 && x + 32 * z < j && #[trigger] present(x, z) && rx * 32 + x == b.max_x;
            assert(present(x1, z1) && x1 + 32 * z1 < k);
            let (x2, z2) = choose|x: int, z: int|
                0 <= x < 32 && 0 <= z < 32 && x + 32 * z < j && #[trigger] present(x, z) && rz * 32 + z == b.min_z;
            assert(present(x2, z2) && x2 + 32 * z2 < k);
            let (x3, z3) = choose|x: int, z: int|
                0 <= x < 32 && 0 <= z < 32 && x + 32 * z < j && #[trigger] present(x, z) && rz * 32 + z == b.max_z;
            assert(present(x3, z3) && x3 + 32 * z3 < k);
        }
    }
}

/// Region coordinates small enough that every chunk coordinate of the region
/// fits an `i32`.
pub open spec fn region_in_range(region_x: i32, region_z: i32) -> bool {
    i32::MIN <= region_x * 32 && region_x * 32 + 31 <= i32::MAX && i32::MIN <= region_z * 32 && region_z * 32
        + 31 <= i32::MAX
}

/// Whether every chunk coordinate of region `(region_x, region_z)` fits an
/// `i32` (see [`region_in_range`]).
pub fn region_fits(region_x: i32, region_z: i32) -> (r: bool)
    ensures
        r == region_in_range(region_x, region_z),
{
    let x = region_x as i64 * 32;
    let z = region_z as i64 * 32;
    i32::MIN as i64 <= x && x + 31 <= i32::MAX as i64 && i32::MIN as i64 <= z && z + 31 <= i32::MAX as i64
}

/// Fold one more present chunk into a running count and bounding box.
fn add_chunk(count: usize, bounds: Option<Bounds>, cx: i32, cz: i32) -> (r: (usize, Option<Bounds>))
    requires
        count < usize::MAX,
    ensures
        r.0 == count + 1,
        r.1 == Some(
            match bounds {
                Some(b) => Bounds {
                    min_x: min_i(b.min_x as int, cx as int) as i32,
                    min_z: min_i(b.min_z as int, cz as int) as i32,
                    max_x: max_i(b.max_x as int, cx as int) as i32,
                    max_z: max_i(b.max_z as int, cz as int) as i32,
                },
                None => Bounds { min_x: cx, min_z: cz, max_x: cx, max_z: cz },
            },
        ),
{
    let nb = match bounds {
        Some(b) => b.merged(&Bounds { min_x: cx, min_z: cz, max_x: cx, max_z: cz }),
        None => Bounds { min_x: cx, min_z: cz, max_x: cx, max_z: cz },
    };
    (count + 1, Some(nb))
}

/// Count the chunks a region's location table lists and find their bounding
/// box, without reading any chunk data. `index` is the start of the region
/// file (at least its 4096-byte location table; shorter data lists only the
/// entries it holds completely).
pub fn count_region_index(region_x: i32, region_z: i32, index: &[u8]) -> (r: (usize, Option<Bounds>))
    requires
        region_in_range(region_x, region_z),
    ensures
        r == ({
            let (n, b) = listed_summary(|x: int, z: int| chunk_listed(index@, x, z), region_x as int, region_z as int, 1024);
            (n as usize, b)
        }),
        boxes_present(
            |x: int, z: int| chunk_listed(index@, x, z),
            region_x as int,
            region_z as int,
            1024,
            r.0 as int,
            r.1,
        ),
{
    proof {
        lemma_listed_summary_boxes(|x: int, z: int| chunk_listed(index@, x, z), region_x, region_z, 1024);
    }
    let ghost present = |x: int, z: int| chunk_listed(index@, x, z);
    let mut count: usize = 0;
    let mut bounds: Option<Bounds> = None;
    let mut k: usize = 0;
    while k < 1024
        invariant
            k <= 1024,
            region_in_range(region_x, region_z),
            present == (|x: int, z: int| chunk_listed(index@, x, z)),
            count as int == listed_summary(present, region_x as int, region_z as int, k as int).0,
            bounds == listed_summary(present, region_x as int, region_z as int, k as int).1,
            count <= k,
        decreases 1024 - k,
    {
        let lx = k % 32;
        let lz = k / 32;
        let o = 4 * k;
        assert(o == location_offset(lx as int, lz as int));
        let listed = o + 4 <= index.len() && !(index[o] == 0 && index[o + 1] == 0 && index[o + 2] == 0
            && index[o + 3] == 0);
        assert(listed == present(lx as int, lz as int));
        if listed {
            let cx = region_x * 32 + lx as i32;
            let cz = region_z * 32 + lz as i32;
            let (c2, b2) = add_chunk(count, bounds, cx, cz);
            count = c2;
            bounds = b2;
        }
        k = k + 1;
    }
    (count, bounds)
}

/// A big-endian number read from `n` bytes of `data` starting at `o`.
pub open spec fn be_value(data: Seq<u8>, o: int, n: int) -> int
    decreases n,
{
    if n <= 0 {
        0
    } else {
        be_value(data, o, n - 1) * 256 + data[o + n - 1] as int
    }
}

/// Reading chunk `(x, z)` with `mca` cannot panic: every index and range
/// `mca::RegionReader::chunk_data` computes from the headers either fits a
/// `usize` or is checked before use, and a custom-compression header
/// (compression byte 127 or more) holds the two length bytes and the id it
/// announces.
pub open spec fn chunk_read_safe(data: Seq<u8>, x: int, z: int) -> bool {
    (data.len() >= 2 * SECTOR_BYTES && chunk_listed(data, x, z)) ==> {
        let offset = be_value(data, location_offset(x, z), 3) * SECTOR_BYTES;
        &&& offset + 4 <= usize::MAX
        &&& offset + 4 <= data.len() ==> {
            let data_len = be_value(data, offset, 4);
            &&& offset + 4 + data_len <= usize::MAX
            &&& (offset + 4 + data_len <= data.len() && data_len >= 1 && data[offset + 4] >= 127) ==> {
                &&& data_len >= 3
                &&& data_len >= 3 + be_value(data, offset + 5, 2)
            }
        }
    }
}

/// Every chunk of the region can be read without a panic.
pub open spec fn region_read_safe(data: Seq<u8>) -> bool {
    forall|x: int, z: int| 0 <= x < 32 && 0 <= z < 32 ==> #[trigger] chunk_read_safe(data, x, z)
}

/// What reading chunk `(x, z)` of the region bytes `data` with
/// `mca::RegionReader::new` and `RegionReader::chunk` gives: the decompressed
/// chunk data, `Ok(None)` for a chunk the region does not hold, `Err` when
/// `mca` reports an error.
pub uninterp spec fn mca_chunk(data: Seq<u8>, x: u8, z: u8) -> Result<Option<Seq<u8>>, ()>;

/// The outcome of a chunk read, by value.
pub open spec fn outcome_view(r: Result<Option<Vec<u8>>, ChunkReadError>) -> Result<Option<Seq<u8>>, ()> {
    match r {
        Ok(Some(v)) => Ok(Some(v@)),
        Ok(None) => Ok(None),
        Err(_) => Err(()),
    }
}

/// Why a chunk of a region could not be read, as `mca` words it.
#[derive(Debug)]
pub struct ChunkReadError {
    pub message: String,
}

/// `mca::McaError`, carried through opaquely.
#[verifier::external_type_specification]
#[verifier::external_body]
pub struct ExMcaError(mca::McaError);

/// `mca::RegionReader::new(data)` and then `reader.chunk(x, z)`, with the
/// chunk bytes copied out of the reader's buffer. The contract names the
/// outcome ([`mca_chunk`]) and states what `mca`'s source shows of it: data
/// shorter than the two 4096-byte header tables is refused
/// (`McaError::MissingHeaders`), a chunk whose location entry is all zero is
/// `Ok(None)`, and a listed chunk is never `Ok(None)`. The decompressed bytes
/// themselves are left to the name.
#[verifier::external_body]
fn mca_read_chunk(data: &[u8], x: u8, z: u8) -> (r: Result<Option<Vec<u8>>, mca::McaError>)
    requires
        x < 32,
        z < 32,
        chunk_read_safe(data@, x as int, z as int),
    ensures
        (match r {
            Ok(Some(v)) => Ok(Some(v@)),
            Ok(None) => Ok(None),
            Err(_) => Err(()),
        }) == mca_chunk(data@, x, z),
        data@.len() < 2 * SECTOR_BYTES ==> r is Err,
        data@.len() >= 2 * SECTOR_BYTES && !chunk_listed(data@, x as int, z as int) ==> r matches Ok(None),
        data@.len() >= 2 * SECTOR_BYTES && chunk_listed(data@, x as int, z as int) ==> !(r matches Ok(None)),
{
    let mut reader = mca::RegionReader::new(data)?;
    Ok(reader.chunk(x, z)?.map(|bytes| bytes.to_vec()))
}

/// `<mca::McaError as ToString>::to_string`: the error's message. Nothing is
/// stated of the text.
#[verifier::external_body]
fn mca_error_message(e: &mca::McaError) -> String {
    e.to_string()
}

/// Read and decompress chunk `(x, z)` of the region bytes `data`: the chunk's
/// NBT bytes, `None` when the region does not hold it, or the error `mca`
/// reports (data too short for the headers, a broken chunk entry, a failed
/// decompression).
pub fn region_chunk(data: &[u8], x: u8, z: u8) -> (r: Result<Option<Vec<u8>>, ChunkReadError>)
    requires
        x < 32,
        z < 32,
        chunk_read_safe(data@, x as int, z as int),
    ensures
        outcome_view(r) == mca_chunk(data@, x, z),
        data@.len() < 2 * SECTOR_BYTES ==> r is Err,
        data@.len() >= 2 * SECTOR_BYTES && !chunk_listed(data@, x as int, z as int) ==> r matches Ok(None),
        data@.len() >= 2 * SECTOR_BYTES && chunk_listed(data@, x as int, z as int) ==> !(r matches Ok(None)),
{
    match mca_read_chunk(data, x, z) {
        Ok(o) => Ok(o),
        Err(e) => Err(ChunkReadError { message: mca_error_message(&e) }),
    }
}

/// The big-endian value of the `n` bytes (2, 3 or 4) of `data` at `o`.
fn read_be(data: &[u8], o: usize, n: usize) -> (v: u64)
    requires
        2 <= n <= 4,
        o + n <= data@.len(),
    ensures
        v == be_value(data@, o as int, n as int),
        n == 2 ==> v < 0x1_0000,
        v < 0x1_0000_0000,
{
    let len = data.len();
    proof {
        reveal_with_fuel(be_value, 5);
    }
    let b0 = data[o] as u64;
    let b1 = data[o + 1] as u64;
    if n == 2 {
        return b0 * 256 + b1;
    }
    let b2 = data[o + 2] as u64;
    if n == 3 {
        return (b0 * 256 + b1) * 256 + b2;
    }
    let b3 = data[o + 3] as u64;
    ((b0 * 256 + b1) * 256 + b2) * 256 + b3
}

/// Whether chunk `(x, z)` can be read without a panic (see
/// [`chunk_read_safe`]).
pub fn chunk_is_read_safe(data: &[u8], x: u8, z: u8) -> (r: bool)
    requires
        x < 32,
        z < 32,
    ensures
        r == chunk_read_safe(data@, x as int, z as int),
{
    let n = data.len();
    let o = 4 * (x as usize + 32 * z as usize);
    let listed = o + 4 <= n && !(data[o] == 0 && data[o + 1] == 0 && data[o + 2] == 0 && data[o + 3] == 0);
    if !(n >= 2 * SECTOR_BYTES && listed) {
        return true;
    }
    let offset: u64 = read_be(data, o, 3) * (SECTOR_BYTES as u64);
    if offset + 4 > usize::MAX as u64 {
        return false;
    }
    let offset = offset as usize;
    if offset + 4 > n {
        return true;
    }
    let data_len: u64 = read_be(data, offset, 4);
    if offset as u64 + 4 + data_len > usize::MAX as u64 {
        return false;
    }
    let data_len = data_len as usize;
    if offset + 4 + data_len <= n && data_len >= 1 && data[offset + 4] >= 127 {
        if data_len < 3 {
            return false;
        }
        let str_len = read_be(data, offset + 5, 2) as usize;
        return data_len >= 3 + str_len;
    }
    true
}

/// Whether every chunk of the region can be read without a panic (see
/// [`region_read_safe`]).
pub fn region_is_read_safe(data: &[u8]) -> (r: bool)
    ensures
        r == region_read_safe(data@),
{
    let mut z: u8 = 0;
    while z < 32
        invariant
            z <= 32,
            forall|xx: int, zz: int| 0 <= xx < 32 && 0 <= zz < z ==> #[trigger] chunk_read_safe(data@, xx, zz),
        decreases 32 - z,
    {
        let mut x: u8 = 0;
        while x < 32
            invariant
                x <= 32,
                z < 32,
                forall|xx: int, zz: int| 0 <= xx < 32 && 0 <= zz < z ==> #[trigger] chunk_read_safe(data@, xx, zz),
                forall|xx: int| 0 <= xx < x ==> #[trigger] chunk_read_safe(data@, xx, z as int),
            decreases 32 - x,
        {
            if !chunk_is_read_safe(data, x, z) {
                return false;
            }
            x = x + 1;
        }
        z = z + 1;
    }
    true
}

/// The chunk `(x, z)` reads successfully and is present.
pub open spec fn chunk_readable(data: Seq<u8>, x: int, z: int) -> bool {
    mca_chunk(data, x as u8, z as u8) matches Ok(Some(_))
}

/// Best-effort scan of a region file without rendering: the number of its
/// chunks that read successfully and their bounding box (in chunk
/// coordinates), or `None` when there are none (an unreadable, malformed or
/// empty region).
pub fn scan_region(region_x: i32, region_z: i32, data: &[u8]) -> (r: (usize, Option<Bounds>))
    requires
        region_in_range(region_x, region_z),
        region_read_safe(data@),
    ensures
        r == ({
            let (n, b) = listed_summary(|x: int, z: int| chunk_readable(data@, x, z), region_x as int, region_z as int, 1024);
            (n as usize, b)
        }),
        boxes_present(
            |x: int, z: int| chunk_readable(data@, x, z),
            region_x as int,
            region_z as int,
            1024,
            r.0 as int,
            r.1,
        ),
{
    proof {
        lemma_listed_summary_boxes(|x: int, z: int| chunk_readable(data@, x, z), region_x, region_z, 1024);
    }
    let ghost present = |x: int, z: int| chunk_readable(data@, x, z);
    let mut count: usize = 0;
    let mut bounds: Option<Bounds> = None;
    let mut k: usize = 0;
    while k < 1024
        invariant
            k <= 1024,
            region_in_range(region_x, region_z),
            region_read_safe(data@),
            present == (|x: int, z: int| chunk_readable(data@, x, z)),
            count as int == listed_summary(present, region_x as int, region_z as int, k as int).0,
            bounds == listed_summary(present, region_x as int, region_z as int, k as int).1,
            count <= k,
        decreases 1024 - k,
    {
        let lx = k % 32;
        let lz = k / 32;
        assert(chunk_read_safe(data@, lx as int, lz as int));
        let r = mca_read_chunk(data, lx as u8, lz as u8);
        let found = match r {
            Ok(Some(_)) => true,
            _ => false,
        };
        assert(found == present(lx as int, lz as int));
        if found {
            let cx = region_x * 32 + lx as i32;
            let cz = region_z * 32 + lz as i32;
            let (c2, b2) = add_chunk(count, bounds, cx, cz);
            count = c2;
            bounds = b2;
        }
        k = k + 1;
    }
    (count, bounds)
}

/// The last real component among the first `k` path components: empty and
/// `.` components are skipped; a `..` component means there is none.
pub open spec fn last_component(comps: Seq<Seq<char>>, k: int) -> Option<Seq<char>>
    decreases k,
{
    if k <= 0 {
        None
    } else {
        let c = comps[k - 1];
        if c.len() == 0 || c == seq!['.'] {
            last_component(comps, k - 1)
        } else if c == seq!['.', '.'] {
            None
        } else {
            Some(c)
        }
    }
}

/// The file name of a `/`-separated path, as `Path::file_name` gives it.
pub open spec fn file_name(p: Seq<char>) -> Option<Seq<char>> {
    last_component(split_seq(p, '/'), split_seq(p, '/').len() as int)
}

/// Index of the last `.` among `n[1 .. k]`, or `0` when there is none.
pub open spec fn last_dot(n: Seq<char>, k: int) -> int
    decreases k,
{
    if k <= 1 {
        0
    } else if n[k - 1] == '.' {
        k - 1
    } else {
        last_dot(n, k - 1)
    }
}

/// The stem of a file name, as `Path::file_stem` gives it: the part before
/// the last `.`, unless the only `.` is the leading one (or there is none).
pub open spec fn file_stem(n: Seq<char>) -> Seq<char> {
    let d = last_dot(n, n.len() as int);
    if d == 0 {
        n
    } else {
        n.take(d)
    }
}

/// The region coordinates an `r.<x>.<z>.mca` file name encodes: its stem
/// splits on `.` into exactly `r`, an `i32` and an `i32`.
pub open spec fn region_coords_of(p: Seq<char>) -> Option<(i32, i32)> {
    match file_name(p) {
        None => None,
        Some(n) => {
            let parts = split_seq(file_stem(n), '.');
            if parts.len() == 3 && parts[0] == seq!['r'] {
                match (parse_i32_spec(parts[1]), parse_i32_spec(parts[2])) {
                    (Some(x), Some(z)) => Some((x, z)),
                    _ => None,
                }
            } else {
                None
            }
        },
    }
}

/// The last real component of a split path (see [`last_component`]).
fn find_last_component(comps: &Vec<Vec<char>>) -> (r: Option<Vec<char>>)
    ensures
        match r {
            Some(n) => last_component(comps@.map_values(|c: Vec<char>| c@), comps@.len() as int) == Some(n@),
            None => last_component(comps@.map_values(|c: Vec<char>| c@), comps@.len() as int) is None,
        },
{
    let ghost sc = comps@.map_values(|c: Vec<char>| c@);
    let mut k = comps.len();
    while k > 0
        invariant
            k <= comps@.len(),
            sc == comps@.map_values(|c: Vec<char>| c@),
            last_component(sc, sc.len() as int) == last_component(sc, k as int),
        decreases k,
    {
        let c = &comps[k - 1];
        assert(sc[k - 1] == c@);
        if c.len() == 0 || (c.len() == 1 && c[0] == '.') {
            assert(c.len() == 1 ==> c@ =~= seq!['.']);
            k = k - 1;
        } else if c.len() == 2 && c[0] == '.' && c[1] == '.' {
            assert(c@ =~= seq!['.', '.']);
            assert(c@ != seq!['.']);
            return None;
        } else {
            assert(c@ != seq!['.']) by {
                if c@ == seq!['.'] {
                    assert(c@.len() == 1);
                }
            }
            assert(c@ != seq!['.', '.']) by {
                if c@ == seq!['.', '.'] {
                    assert(c@.len() == 2);
                }
            }
            return Some(c.clone());
        }
    }
    None
}

proof fn lemma_last_dot_range(n: Seq<char>, k: int)
    ensures
        last_dot(n, k) == 0 || 1 <= last_dot(n, k) < k,
    decreases k,
{
    if k > 1 {
        lemma_last_dot_range(n, k - 1);
    }
}

/// Index of the last `.` of `n` after its first character, `0` when none.
pub fn find_last_dot(n: &Vec<char>) -> (d: usize)
    ensures
        d == last_dot(n@, n@.len() as int),
        d == 0 || 1 <= d < n@.len(),
{
    proof {
        lemma_last_dot_range(n@, n@.len() as int);
    }
    let mut i: usize = n.len();
    while i > 1
        invariant
            i <= n@.len(),
            last_dot(n@, n@.len() as int) == last_dot(n@, i as int),
        decreases i,
    {
        if n[i - 1] == '.' {
            return i - 1;
        }
        i = i - 1;
    }
    0
}

/// Parse an `r.X.Z.mca` region file path into `(region_x, region_z)`.
///
/// Region files are named `r.<x>.<z>.mca` where `x`/`z` may be negative. Any
/// other file name (e.g. a stray temp file) is rejected.
pub fn parse_region_coords(path: &str) -> (r: Option<(i32, i32)>)
    ensures
        r == region_coords_of(path@),
{
    let cs = chars_of(path);
    let comps = split_chars(&cs, '/');
    assert(comps@.map_values(|c: Vec<char>| c@) =~= split_seq(path@, '/'));
    let n = match find_last_component(&comps) {
        Some(n) => n,
        None => {
            return None;
        },
    };
    let d = find_last_dot(&n);
    let end = if d == 0 { n.len() } else { d };
    let mut stem: Vec<char> = Vec::new();
    let mut j: usize = 0;
    while j < end
        invariant
            j <= end <= n@.len(),
            stem@ == n@.take(j as int),
        decreases end - j,
    {
        stem.push(n[j]);
        assert(stem@ =~= n@.take(j + 1));
        j = j + 1;
    }
    assert(stem@ =~= file_stem(n@));
    let parts = split_chars(&stem, '.');
    if parts.len() != 3 {
        return None;
    }
    let p0 = &parts[0];
    if !(p0.len() == 1 && p0[0] == 'r') {
        assert(parts@[0]@ != seq!['r']) by {
            if parts@[0]@ == seq!['r'] {
                assert(p0@.len() == 1);
            }
        }
        return None;
    }
    assert(parts@[0]@ =~= seq!['r']);
    let x = parse_i32_chars(&parts[1]);
    let z = parse_i32_chars(&parts[2]);
    match (x, z) {
        (Some(x), Some(z)) => Some((x, z)),
        _ => None,
    }
}

/// Fill the chunk's 16x16 block area of the shared `heights` / `colors` /
/// `lights` grids (`grid_w` blocks wide, covering the world bounding box)
/// from its surface, with the area's top-left block at
/// `(block_x0, block_z0)`. A void column is recorded as [`VOID_H`] with the
/// no-block color; `colors` holds each column's display color (night-darkened
/// in night mode) and `lights` its bloom color (black for no light).
pub fn place_chunk(
    heights: &mut Vec<i32>,
    colors: &mut Vec<[u8; 3]>,
    lights: &mut Vec<[u8; 3]>,
    grid_w: usize,
    grid_h: usize,
    top: &ChunkTop,
    block_x0: usize,
    block_z0: usize,
    transparency: bool,
    night: bool,
)
    requires
        top_sized(*top),
        old(heights)@.len() == grid_w * grid_h,
        old(colors)@.len() == grid_w * grid_h,
        old(lights)@.len() == grid_w * grid_h,
        block_x0 + CHUNK_SIZE <= grid_w,
        block_z0 + CHUNK_SIZE <= grid_h,
    ensures
        painted(
            old(heights)@,
            final(heights)@,
            grid_w as int,
            grid_h as int,
            block_x0 as int,
            block_z0 as int,
            16,
            16,
            |lx: int, lz: int| top_heights(*top)[cell(16, lx, lz)],
        ),
        painted(
            old(colors)@,
            final(colors)@,
            grid_w as int,
            grid_h as int,
            block_x0 as int,
            block_z0 as int,
            16,
            16,
            |lx: int, lz: int| region_night_colors(top.blocks@, top.under@, transparency, night)[cell(16, lx, lz)],
        ),
        painted(
            old(lights)@,
            final(lights)@,
            grid_w as int,
            grid_h as int,
            block_x0 as int,
            block_z0 as int,
            16,
            16,
            |lx: int, lz: int| top_lights(*top)[cell(16, lx, lz)],
        ),
{
    let ghost fh = |lx: int, lz: int| top_heights(*top)[cell(16, lx, lz)];
    let ghost fc = |lx: int, lz: int| region_night_colors(top.blocks@, top.under@, transparency, night)[cell(16, lx, lz)];
    let ghost fl = |lx: int, lz: int| top_lights(*top)[cell(16, lx, lz)];
    let ghost oh = heights@;
    let ghost oc = colors@;
    let ghost ol = lights@;
    let ghost w = grid_w as int;
    let ghost h = grid_h as int;
    let total = heights.len();
    let mut lz: usize = 0;
    while lz < CHUNK_SIZE
        invariant
            top_sized(*top),
            heights@.len() == w * h,
            colors@.len() == w * h,
            lights@.len() == w * h,
            oh.len() == w * h,
            w == grid_w,
            h == grid_h,
            total == heights@.len(),
            block_x0 + 16 <= grid_w,
            block_z0 + 16 <= grid_h,
            lz <= 16,
            fh == (|lx: int, lz: int| top_heights(*top)[cell(16, lx, lz)]),
            fc == (|lx: int, lz: int| region_night_colors(top.blocks@, top.under@, transparency, night)[cell(16, lx, lz)]),
            fl == (|lx: int, lz: int| top_lights(*top)[cell(16, lx, lz)]),
            painted_upto(oh, heights@, w, h, block_x0 as int, block_z0 as int, 16, 16, fh, lz as int, 0),
            painted_upto(oc, colors@, w, h, block_x0 as int, block_z0 as int, 16, 16, fc, lz as int, 0),
            painted_upto(ol, lights@, w, h, block_x0 as int, block_z0 as int, 16, 16, fl, lz as int, 0),
        decreases 16 - lz,
    {
        let mut lx: usize = 0;
        while lx < CHUNK_SIZE
            invariant
                top_sized(*top),
                heights@.len() == w * h,
                colors@.len() == w * h,
                lights@.len() == w * h,
                oh.len() == w * h,
                w == grid_w,
                h == grid_h,
                total == heights@.len(),
                block_x0 + 16 <= grid_w,
                block_z0 + 16 <= grid_h,
                lz < 16,
                lx <= 16,
                fh == (|lx: int, lz: int| top_heights(*top)[cell(16, lx, lz)]),
                fc == (|lx: int, lz: int| region_night_colors(top.blocks@, top.under@, transparency, night)[cell(16, lx, lz)]),
                fl == (|lx: int, lz: int| top_lights(*top)[cell(16, lx, lz)]),
                painted_upto(oh, heights@, w, h, block_x0 as int, block_z0 as int, 16, 16, fh, lz as int, lx as int),
                painted_upto(oc, colors@, w, h, block_x0 as int, block_z0 as int, 16, 16, fc, lz as int, lx as int),
                painted_upto(ol, lights@, w, h, block_x0 as int, block_z0 as int, 16, 16, fl, lz as int, lx as int),
            decreases 16 - lx,
        {
            let gx = block_x0 + lx;
            let gz = block_z0 + lz;
            proof {
                lemma_cell_in_grid(w, h, gx as int, gz as int);
            }
            assert(gz * grid_w + gx < total);
            let gi = gz * grid_w + gx;
            let ci = lz * CHUNK_SIZE + lx;
            let hv = match top.heights[ci] {
                Some(v) => v,
                None => VOID_H,
            };
            let cv = darken_for(display_color(&top.blocks[ci], &top.under[ci], transparency), night);
            let lv = column_light(&top.blocks[ci]);
            let ghost ch = heights@;
            let ghost cc = colors@;
            let ghost cl = lights@;
            heights.set(gi, hv);
            colors.set(gi, cv);
            lights.set(gi, lv);
            proof {
                assert(ci == cell(16, lx as int, lz as int));
                lemma_paint_step(oh, ch, heights@, w, h, block_x0 as int, block_z0 as int, 16, 16, fh, lz as int, lx as int);
                lemma_paint_step(oc, cc, colors@, w, h, block_x0 as int, block_z0 as int, 16, 16, fc, lz as int, lx as int);
                lemma_paint_step(ol, cl, lights@, w, h, block_x0 as int, block_z0 as int, 16, 16, fl, lz as int, lx as int);
            }
            lx = lx + 1;
        }
        lz = lz + 1;
    }
    proof {
        lemma_paint_done(oh, heights@, w, h, block_x0 as int, block_z0 as int, 16, 16, fh);
        lemma_paint_done(oc, colors@, w, h, block_x0 as int, block_z0 as int, 16, 16, fc);
        lemma_paint_done(ol, lights@, w, h, block_x0 as int, block_z0 as int, 16, 16, fl);
    }
}

/// The absolute coordinate of local chunk `local` of region `region`.
pub fn chunk_coordinate(region: i32, local: u8) -> (c: i32)
    requires
        i32::MIN <= region * 32,
        region * 32 + local <= i32::MAX,
    ensures
        c == chunk_coord(region as int, local as int),
{
    region * 32 + local as i32
}

/// Composite one chunk into the shared single-map image (native resolution,
/// no lighting), downsampled by `scale`: the chunk's top-left pixel is its
/// block offset from the world's minimum chunk, divided by `scale`.
pub fn composite_chunk(
    img: &mut Canvas,
    top: &ChunkTop,
    chunk_x: i32,
    chunk_z: i32,
    min_chunk_x: i32,
    min_chunk_z: i32,
    scale: u32,
    transparency: bool,
    night: bool,
)
    requires
        old(img).wf(),
        top_sized(*top),
        1 <= scale <= i32::MAX,
        min_chunk_x <= chunk_x,
        min_chunk_z <= chunk_z,
        (chunk_x - min_chunk_x) * 16 <= i32::MAX,
        (chunk_z - min_chunk_z) * 16 <= i32::MAX,
        ((chunk_x - min_chunk_x) * 16) / (scale as int) + cells_for(16, scale as int) <= old(img).width,
        ((chunk_z - min_chunk_z) * 16) / (scale as int) + cells_for(16, scale as int) <= old(img).height,
    ensures
        final(img).width == old(img).width,
        final(img).height == old(img).height,
        painted(
            old(img).pixels@,
            final(img).pixels@,
            old(img).width as int,
            old(img).height as int,
            ((chunk_x - min_chunk_x) * 16) / (scale as int),
            ((chunk_z - min_chunk_z) * 16) / (scale as int),
            cells_for(16, scale as int),
            cells_for(16, scale as int),
            scaled_painter(
                crate::render::region_colors(top.blocks@, top.under@, transparency),
                16,
                16,
                scale as int,
                night,
            ),
        ),
{
    let s = scale as i32;
    let offset_x = ((chunk_x - min_chunk_x) * (CHUNK_SIZE as i32)) / s;
    let offset_z = ((chunk_z - min_chunk_z) * (CHUNK_SIZE as i32)) / s;
    render_into_big(img, top, offset_x as u32, offset_z as u32, scale, transparency, night);
}

/// Composite one chunk into the shared image in supersample mode: every block
/// becomes a solid `ss x ss` pixel square, so the chunk sits at pixel offset
/// `(chunk - min) * 16 * ss`.
pub fn composite_chunk_ss(
    img: &mut Canvas,
    top: &ChunkTop,
    chunk_x: i32,
    chunk_z: i32,
    min_chunk_x: i32,
    min_chunk_z: i32,
    ss: u32,
    transparency: bool,
    night: bool,
)
    requires
        old(img).wf(),
        top_sized(*top),
        ss >= 1,
        min_chunk_x <= chunk_x,
        min_chunk_z <= chunk_z,
        (chunk_x - min_chunk_x) * 16 * ss + 16 * ss <= old(img).width,
        (chunk_z - min_chunk_z) * 16 * ss + 16 * ss <= old(img).height,
    ensures
        final(img).width == old(img).width,
        final(img).height == old(img).height,
        painted(
            old(img).pixels@,
            final(img).pixels@,
            old(img).width as int,
            old(img).height as int,
            (chunk_x - min_chunk_x) * 16 * ss,
            (chunk_z - min_chunk_z) * 16 * ss,
            16 * ss,
            16 * ss,
            block_painter(region_night_colors(top.blocks@, top.under@, transparency, night), 16, ss as int),
        ),
{
    let dx = (chunk_x as i64 - min_chunk_x as i64) as u64;
    let dz = (chunk_z as i64 - min_chunk_z as i64) as u64;
    assert(dx * 16 * ss <= u32::MAX) by (nonlinear_arith)
        requires
            dx * 16 * ss + 16 * ss <= u32::MAX,
            ss >= 1,
    ;
    assert(dz * 16 * ss <= u32::MAX) by (nonlinear_arith)
        requires
            dz * 16 * ss + 16 * ss <= u32::MAX,
            ss >= 1,
    ;
    let offset_x = (dx * 16 * ss as u64) as u32;
    let offset_z = (dz * 16 * ss as u64) as u32;
    blit_supersampled(
        img,
        top.blocks.as_slice(),
        top.under.as_slice(),
        CHUNK_SIZE,
        CHUNK_SIZE,
        ss as usize,
        offset_x,
        offset_z,
        transparency,
        night,
    );
}

/// The characters of a chunk image's file name: the dimension prefix, then
/// `c_<x>_<z>.png`.
pub open spec fn chunk_file_name_of(prefix: Seq<char>, chunk_x: int, chunk_z: int) -> Seq<char> {
    prefix + seq!['c', '_'] + decimal(chunk_x) + seq!['_'] + decimal(chunk_z) + seq!['.', 'p', 'n', 'g']
}

/// File name of a chunk's image, e.g. `the_nether_c_-3_12.png`: the
/// dimension's prefix keeps different dimensions from overwriting each
/// other.
pub fn chunk_file_name(prefix: &str, chunk_x: i32, chunk_z: i32) -> (name: String)
    ensures
        name@ == chunk_file_name_of(prefix@, chunk_x as int, chunk_z as int),
{
    let mut out: Vec<char> = Vec::new();
    push_str(&mut out, prefix);
    out.push('c');
    out.push('_');
    push_decimal(&mut out, chunk_x as i64);
    out.push('_');
    push_decimal(&mut out, chunk_z as i64);
    out.push('.');
    out.push('p');
    out.push('n');
    out.push('g');
    assert(out@ =~= chunk_file_name_of(prefix@, chunk_x as int, chunk_z as int));
    string_from_chars(out.as_slice())
}

/// Which renderer a chunk image uses.
pub enum ChunkStyle {
    /// Downsampled (or native) by a scale factor.
    Scaled,
    /// Upsampled to solid block squares.
    Supersampled,
    /// Upsampled with ambient occlusion and/or bloom.
    SupersampledFx,
}

/// The renderer for a chunk image: upsampling (a factor above 1) draws solid
/// block squares, with the lighting effects when either is on; otherwise the
/// chunk is drawn at `scale`.
pub open spec fn chunk_style_for(upsample: u32, ambient_occlusion: bool, bloom: bool) -> ChunkStyle {
    if upsample > 1 {
        if ambient_occlusion || bloom {
            ChunkStyle::SupersampledFx
        } else {
            ChunkStyle::Supersampled
        }
    } else {
        ChunkStyle::Scaled
    }
}

/// The image of one chunk in per-chunk mode: `upsample > 1` switches to the
/// supersampled renderer (each block a solid `upsample x upsample` square),
/// with ambient occlusion and/or bloom layered on when requested; otherwise
/// the chunk is drawn at `scale`.
pub fn render_chunk(
    top: &ChunkTop,
    scale: u32,
    upsample: u32,
    ambient_occlusion: bool,
    bloom: bool,
    transparency: bool,
    night: bool,
) -> (img: Canvas)
    requires
        top_sized(*top),
        upsample > 1 ==> CHUNK_SIZE * upsample <= u32::MAX && (CHUNK_SIZE * upsample) * (CHUNK_SIZE * upsample)
            <= usize::MAX,
        upsample <= 1 ==> scale >= 1 && CHUNK_SIZE + scale <= usize::MAX,
    ensures
        match chunk_style_for(upsample, ambient_occlusion, bloom) {
            ChunkStyle::Scaled => img.width == cells_for(16, scale as int) && img.height == cells_for(16, scale as int)
                && crate::render::fully_painted(
                img,
                scaled_painter(crate::render::region_colors(top.blocks@, top.under@, transparency), 16, 16, scale as int, night),
            ),
            ChunkStyle::Supersampled => img.width == 16 * upsample && img.height == 16 * upsample
                && crate::render::fully_painted(
                img,
                block_painter(region_night_colors(top.blocks@, top.under@, transparency, night), 16, upsample as int),
            ),
            ChunkStyle::SupersampledFx => img.width == 16 * upsample && img.height == 16 * upsample && img.wf()
                && forall|x: int, y: int|
                0 <= x < img.width && 0 <= y < img.height ==> #[trigger] img.pixels@[cell(img.width as int, x, y)]
                    == crate::render::chunk_fx_pixel(*top, upsample as int, transparency, ambient_occlusion, bloom, night, x, y),
        },
{
    if upsample > 1 {
        if ambient_occlusion || bloom {
            chunk_image_ss_fx(top, upsample, transparency, ambient_occlusion, bloom, night)
        } else {
            chunk_image_ss(top, upsample, transparency, night)
        }
    } else {
        chunk_image(top, scale, transparency, night)
    }
}

} // verus!
