//! The render pipeline's decisions, shared by the command line and the web
//! server: the render configuration and its validation, what a render
//! reports, the world's extent, the single-image size, and how the progress
//! bar is laid out.

use vstd::prelude::*;

use crate::args::{
    args_outcome, initial_scan, lemma_scan_keeps_scale, upsample_of, Args, HYPER_SAMPLE, SUPER_SAMPLE,
};
use crate::chunk::CHUNK_SIZE;
use crate::region::{max_i, min_i, Bounds};
use crate::text::{chars_of, string_from_chars};

verus! {

/// Everything needed to render one map, built from command-line arguments or
/// from the web form.
pub struct RenderConfig {
    /// World root directory (the folder containing `region/`,
    /// `dimensions/`, ...).
    pub world_path: String,
    /// Dimension index: `0` overworld, `1` nether, `-1` end.
    pub dim: i32,
    /// `true` for a single combined image, `false` for per-chunk images.
    pub single: bool,
    /// Blocks per pixel; only meaningful when no upsampling is on.
    pub scale: u32,
    pub shadows: bool,
    pub supersample: bool,
    pub hypersample: bool,
    pub ambient_occlusion: bool,
    pub bloom: bool,
    pub transparency: bool,
    pub night: bool,
    /// Directory the resulting images are written to.
    pub output_dir: String,
}

impl RenderConfig {
    /// Build a config from parsed command-line arguments; the command line
    /// writes to `output/`.
    pub fn from_args(args: &Args) -> (c: Self)
        ensures
            c.world_path@ == args.world_path@,
            c.dim == args.dim,
            c.single == args.single,
            c.scale == args.scale,
            c.shadows == args.shadows,
            c.supersample == args.supersample,
            c.hypersample == args.hypersample,
            c.ambient_occlusion == args.ambient_occlusion,
            c.bloom == args.bloom,
            c.transparency == args.transparency,
            c.night == args.night,
            c.output_dir@ == "output"@,
    {
        RenderConfig {
            world_path: args.world_path.clone(),
            dim: args.dim,
            single: args.single,
            scale: args.scale,
            shadows: args.shadows,
            supersample: args.supersample,
            hypersample: args.hypersample,
            ambient_occlusion: args.ambient_occlusion,
            bloom: args.bloom,
            transparency: args.transparency,
            night: args.night,
            output_dir: string_from_chars(chars_of("output").as_slice()),
        }
    }

    /// Pixels-per-block upsample factor: `Some(15)` / `Some(5)` / `None`.
    pub fn upsample_factor(&self) -> (r: Option<u32>)
        ensures
            r == upsample_of(self.supersample, self.hypersample),
    {
        if self.hypersample {
            Some(HYPER_SAMPLE)
        } else if self.supersample {
            Some(SUPER_SAMPLE)
        } else {
            None
        }
    }
}

/// The first rule a configuration breaks, if any: the two sampling modes
/// exclude each other, the scale is at least 1, and ambient occlusion and
/// bloom need a sampling mode.
pub open spec fn config_problem(
    scale: u32,
    supersample: bool,
    hypersample: bool,
    ambient_occlusion: bool,
    bloom: bool,
) -> Option<Seq<char>> {
    if supersample && hypersample {
        Some("Supersample and hypersampling cannot be combined"@)
    } else if scale < 1 {
        Some("Scale must be >= 1"@)
    } else if ambient_occlusion && !(supersample || hypersample) {
        Some("Ambient occlusion requires supersampling or hypersampling"@)
    } else if bloom && !(supersample || hypersample) {
        Some("Bloom requires supersampling or hypersampling"@)
    } else {
        None
    }
}

fn text(s: &str) -> (r: String)
    ensures
        r@ == s@,
{
    string_from_chars(chars_of(s).as_slice())
}

/// Validate the combination of renderer flags, mirroring the command-line
/// rules: the sampling modes cannot be combined, and ambient occlusion and
/// bloom require a (hyper)supersampled pass.
pub fn validate_config(config: &RenderConfig) -> (r: Result<(), String>)
    ensures
        match r {
            Ok(()) => config_problem(
                config.scale,
                config.supersample,
                config.hypersample,
                config.ambient_occlusion,
                config.bloom,
            ) is None,
            Err(e) => config_problem(
                config.scale,
                config.supersample,
                config.hypersample,
                config.ambient_occlusion,
                config.bloom,
            ) == Some(e@),
        },
{
    if config.supersample && config.hypersample {
        return Err(text("Supersample and hypersampling cannot be combined"));
    }
    if config.scale < 1 {
        return Err(text("Scale must be >= 1"));
    }
    if config.ambient_occlusion && !(config.supersample || config.hypersample) {
        return Err(text("Ambient occlusion requires supersampling or hypersampling"));
    }
    if config.bloom && !(config.supersample || config.hypersample) {
        return Err(text("Bloom requires supersampling or hypersampling"));
    }
    Ok(())
}

/// A command line that parses always passes the render configuration
/// rules: the configuration built from it is never refused, and with a
/// sampling mode on it renders at one block per pixel, since a sampling mode
/// and `--scale` exclude each other.
pub proof fn lemma_parsed_args_pass_validation(raw: Seq<String>)
    ensures
        args_outcome(raw) matches Ok(Some(a)) ==> {
            &&& config_problem(a.scale, a.supersample, a.hypersample, a.ambient_occlusion, a.bloom) is None
            &&& (a.supersample || a.hypersample) ==> a.scale == 1
        },
{
    lemma_scan_keeps_scale(raw, 0, initial_scan());
}

/// The result of a completed render.
pub struct RenderResult {
    pub dim_name: &'static str,
    pub region_files: usize,
    pub chunks: usize,
    /// Output image size (single mode only).
    pub width: u32,
    pub height: u32,
    /// The single image path (single mode) when one was produced.
    pub single_image: Option<String>,
    /// The output directory holding per-chunk images (chunk mode) when
    /// produced.
    pub chunk_dir: Option<String>,
    /// The single-image file name (e.g. `world.png`) for the chosen
    /// dimension.
    pub out_file_name: &'static str,
}

impl RenderResult {
    /// The result of a render that found no chunks: nothing was produced.
    pub fn empty(dim_name: &'static str, region_files: usize, out_file_name: &'static str) -> (r: Self)
        ensures
            r.dim_name == dim_name,
            r.region_files == region_files,
            r.chunks == 0,
            r.width == 0,
            r.height == 0,
            r.single_image is None,
            r.chunk_dir is None,
            r.out_file_name == out_file_name,
    {
        RenderResult {
            dim_name,
            region_files,
            chunks: 0,
            width: 0,
            height: 0,
            single_image: None,
            chunk_dir: None,
            out_file_name,
        }
    }
}

impl RenderResult {
    /// The result of a single-image render of `chunks` chunks into a
    /// `width x height` image written to `path`.
    pub fn single(
        dim_name: &'static str,
        region_files: usize,
        chunks: usize,
        width: u32,
        height: u32,
        path: String,
        out_file_name: &'static str,
    ) -> (r: Self)
        ensures
            r.dim_name == dim_name,
            r.region_files == region_files,
            r.chunks == chunks,
            r.width == width,
            r.height == height,
            r.single_image == Some(path),
            r.chunk_dir is None,
            r.out_file_name == out_file_name,
    {
        RenderResult {
            dim_name,
            region_files,
            chunks,
            width,
            height,
            single_image: Some(path),
            chunk_dir: None,
            out_file_name,
        }
    }

    /// The result of a per-chunk render of `chunks` chunks into `dir`: no
    /// single image, and no image size.
    pub fn per_chunk(
        dim_name: &'static str,
        region_files: usize,
        chunks: usize,
        dir: String,
        out_file_name: &'static str,
    ) -> (r: Self)
        ensures
            r.dim_name == dim_name,
            r.region_files == region_files,
            r.chunks == chunks,
            r.width == 0,
            r.height == 0,
            r.single_image is None,
            r.chunk_dir == Some(dir),
            r.out_file_name == out_file_name,
    {
        RenderResult {
            dim_name,
            region_files,
            chunks,
            width: 0,
            height: 0,
            single_image: None,
            chunk_dir: Some(dir),
            out_file_name,
        }
    }
}

/// How a render draws its chunks.
pub enum RenderPass {
    /// One image per chunk.
    PerChunk,
    /// One image from block grids, with shadows, ambient occlusion and/or
    /// bloom at `s` pixels per block.
    LitSupersampled(u32),
    /// One image from block grids with shadows, downsampled by the scale.
    ShadedMap,
    /// One image composited chunk by chunk at `s` pixels per block.
    Supersampled(u32),
    /// One image composited chunk by chunk, downsampled by the scale.
    Scaled,
}

/// The pass a render uses: per-chunk images unless a single image is asked
/// for; a single image is drawn from block grids when a lighting effect is
/// on (upsampled when a sampling mode is), else chunk by chunk.
pub open spec fn render_pass_of(
    single: bool,
    shadows: bool,
    ambient_occlusion: bool,
    bloom: bool,
    upsample: Option<u32>,
) -> RenderPass {
    if !single {
        RenderPass::PerChunk
    } else if shadows || ambient_occlusion || bloom {
        match upsample {
            Some(s) => RenderPass::LitSupersampled(s),
            None => RenderPass::ShadedMap,
        }
    } else {
        match upsample {
            Some(s) => RenderPass::Supersampled(s),
            None => RenderPass::Scaled,
        }
    }
}

/// Choose the pass a render uses (see [`render_pass_of`]).
pub fn render_pass(config: &RenderConfig) -> (r: RenderPass)
    ensures
        r == render_pass_of(
            config.single,
            config.shadows,
            config.ambient_occlusion,
            config.bloom,
            upsample_of(config.supersample, config.hypersample),
        ),
{
    let upsample = config.upsample_factor();
    if !config.single {
        RenderPass::PerChunk
    } else if config.shadows || config.ambient_occlusion || config.bloom {
        match upsample {
            Some(s) => RenderPass::LitSupersampled(s),
            None => RenderPass::ShadedMap,
        }
    } else {
        match upsample {
            Some(s) => RenderPass::Supersampled(s),
            None => RenderPass::Scaled,
        }
    }
}

/// Per-dimension statistics about a world's region data, used to preview how
/// large a render will be before it runs.
pub struct DimStats {
    /// Number of non-empty chunks in this dimension.
    pub chunks: usize,
    /// Width of the chunk bounding box, in blocks.
    pub blocks_w: u64,
    /// Depth (z) of the chunk bounding box, in blocks.
    pub blocks_h: u64,
    /// Number of region files on disk for this dimension.
    pub region_files: usize,
}

impl DimStats {
    /// Statistics of a dimension with no region data.
    pub fn empty() -> (r: Self)
        ensures
            r.chunks == 0,
            r.blocks_w == 0,
            r.blocks_h == 0,
            r.region_files == 0,
    {
        DimStats { chunks: 0, blocks_w: 0, blocks_h: 0, region_files: 0 }
    }
}

/// Fold one region's scan into the world totals: chunk counts add up and the
/// bounding boxes merge.
pub fn add_region_scan(
    total: usize,
    world: Option<Bounds>,
    count: usize,
    bounds: Option<Bounds>,
) -> (r: (usize, Option<Bounds>))
    requires
        total + count <= usize::MAX,
    ensures
        r.0 == total + count,
        r.1 == match (world, bounds) {
            (Some(w), Some(b)) => Some(
                Bounds {
                    min_x: min_i(w.min_x as int, b.min_x as int) as i32,
                    min_z: min_i(w.min_z as int, b.min_z as int) as i32,
                    max_x: max_i(w.max_x as int, b.max_x as int) as i32,
                    max_z: max_i(w.max_z as int, b.max_z as int) as i32,
                },
            ),
            (None, Some(b)) => Some(b),
            (w, None) => w,
        },
{
    let merged = match bounds {
        Some(b) => Some(
            match world {
                Some(prev) => prev.merged(&b),
                None => b,
            },
        ),
        None => world,
    };
    (total + count, merged)
}

/// Size in blocks of the chunks `min ..= max` along one axis (zero for an
/// empty span).
pub open spec fn span_blocks(min: i32, max: i32) -> int {
    let v = (max - min + 1) * 16;
    if v > 0 {
        v
    } else {
        0
    }
}

/// The block extent of a world's chunk bounding box: its width and depth in
/// blocks, `(0, 0)` without chunks.
pub fn world_block_span(bounds: Option<Bounds>) -> (r: (u64, u64))
    ensures
        r == match bounds {
            Some(b) => (span_blocks(b.min_x, b.max_x) as u64, span_blocks(b.min_z, b.max_z) as u64),
            None => (0u64, 0u64),
        },
{
    match bounds {
        Some(b) => {
            let w = (b.max_x as i64 - b.min_x as i64 + 1) * 16i64;
            let h = (b.max_z as i64 - b.min_z as i64 + 1) * 16i64;
            let w = if w > 0 { w as u64 } else { 0 };
            let h = if h > 0 { h as u64 } else { 0 };
            (w, h)
        },
        None => (0, 0),
    }
}

/// The size of the single image: with upsampling each block is `ss` pixels;
/// otherwise each pixel covers `scale x scale` blocks, rounding up.
pub open spec fn single_image_size(blocks_w: int, blocks_h: int, scale: int, upsample: Option<u32>) -> (int, int) {
    match upsample {
        Some(ss) => (blocks_w * ss, blocks_h * ss),
        None => ((blocks_w + scale - 1) / scale, (blocks_h + scale - 1) / scale),
    }
}

/// The pixel size of the single image of a world whose chunk bounding box is
/// `b` (see [`single_image_size`]).
pub fn image_size(b: Bounds, scale: u32, upsample: Option<u32>) -> (r: (u32, u32))
    requires
        b.min_x <= b.max_x,
        b.min_z <= b.max_z,
        scale >= 1,
        ({
            let (w, h) = single_image_size(
                (b.max_x - b.min_x + 1) * 16,
                (b.max_z - b.min_z + 1) * 16,
                scale as int,
                upsample,
            );
            w <= u32::MAX && h <= u32::MAX
        }),
        (b.max_x - b.min_x + 1) * 16 + scale <= u32::MAX + 1,
        (b.max_z - b.min_z + 1) * 16 + scale <= u32::MAX + 1,
    ensures
        (r.0 as int, r.1 as int) == single_image_size(
            (b.max_x - b.min_x + 1) * 16,
            (b.max_z - b.min_z + 1) * 16,
            scale as int,
            upsample,
        ),
{
    let bw = ((b.max_x as i64 - b.min_x as i64 + 1) * 16) as u64;
    let bh = ((b.max_z as i64 - b.min_z as i64 + 1) * 16) as u64;
    match upsample {
        Some(ss) => {
            assert(bw * ss <= u32::MAX);
            assert(bh * ss <= u32::MAX);
            ((bw * ss as u64) as u32, (bh * ss as u64) as u32)
        },
        None => {
            let s = scale as u64;
            (((bw + s - 1) / s) as u32, ((bh + s - 1) / s) as u32)
        },
    }
}

/// The pixel size of the single image of a world whose chunk bounding box
/// is `b` (see [`single_image_size`]), or `None` when the box is empty, the
/// scale is zero, or the size does not fit a `u32`.
pub fn checked_image_size(b: Bounds, scale: u32, upsample: Option<u32>) -> (r: Option<(u32, u32)>)
    ensures
        match r {
            Some((w, h)) => {
                &&& b.min_x <= b.max_x
                &&& b.min_z <= b.max_z
                &&& scale >= 1
                &&& (w as int, h as int) == single_image_size(
                    (b.max_x - b.min_x + 1) * 16,
                    (b.max_z - b.min_z + 1) * 16,
                    scale as int,
                    upsample,
                )
            },
            None => !({
                &&& b.min_x <= b.max_x
                &&& b.min_z <= b.max_z
                &&& scale >= 1
                &&& single_image_size(
                    (b.max_x - b.min_x + 1) * 16,
                    (b.max_z - b.min_z + 1) * 16,
                    scale as int,
                    upsample,
                ).0 <= u32::MAX
                &&& single_image_size(
                    (b.max_x - b.min_x + 1) * 16,
                    (b.max_z - b.min_z + 1) * 16,
                    scale as int,
                    upsample,
                ).1 <= u32::MAX
                &&& (b.max_x - b.min_x + 1) * 16 + scale <= u32::MAX + 1
                &&& (b.max_z - b.min_z + 1) * 16 + scale <= u32::MAX + 1
            }),
        },
{
    if b.min_x > b.max_x || b.min_z > b.max_z || scale < 1 {
        return None;
    }
    let bw: u64 = ((b.max_x as i64 - b.min_x as i64 + 1) * 16) as u64;
    let bh: u64 = ((b.max_z as i64 - b.min_z as i64 + 1) * 16) as u64;
    if bw + scale as u64 > u32::MAX as u64 + 1 || bh + scale as u64 > u32::MAX as u64 + 1 {
        return None;
    }
    match upsample {
        Some(ss) => {
            assert(bw * ss <= u64::MAX && bh * ss <= u64::MAX) by (nonlinear_arith)
                requires
                    bw <= u32::MAX + 1,
                    bh <= u32::MAX + 1,
                    ss <= u32::MAX,
            ;
            if bw * ss as u64 > u32::MAX as u64 || bh * ss as u64 > u32::MAX as u64 {
                return None;
            }
        },
        None => {
            let s = scale as u64;
            assert((bw + s - 1) as int / s as int <= (bw + s - 1) as int) by {
                vstd::arithmetic::div_mod::lemma_div_is_ordered_by_denominator((bw + s - 1) as int, 1, s as int);
            }
            assert((bh + s - 1) as int / s as int <= (bh + s - 1) as int) by {
                vstd::arithmetic::div_mod::lemma_div_is_ordered_by_denominator((bh + s - 1) as int, 1, s as int);
            }
        },
    }
    Some(image_size(b, scale, upsample))
}

/// How the progress bar is laid out for a render of `chunks` chunks: one
/// unit per chunk, and in single mode a reserved tail of a quarter of that
/// (rounded up) for composing and encoding the final image.
pub struct ProgressPlan {
    /// Length of the bar.
    pub total_units: u64,
    /// Where the reserved tail starts (after the last chunk).
    pub finalize_base: u64,
    /// Position while the lighting is applied.
    pub lighting_at: u64,
    /// Position while the final image is encoded.
    pub encoding_at: u64,
}

/// Lay out the progress bar for a render of `chunks` chunks (see
/// [`ProgressPlan`]).
pub fn progress_plan(chunks: u64, single: bool) -> (p: ProgressPlan)
    requires
        chunks <= u64::MAX / 2,
    ensures
        ({
            let fin = if single { (chunks + 3) / 4 } else { 0 };
            &&& p.total_units == chunks + fin
            &&& p.finalize_base == chunks
            &&& p.lighting_at == chunks + fin / 2
            &&& p.encoding_at == chunks + (fin * 3) / 4
        }),
{
    let fin: u64 = if single { (chunks + 3) / 4 } else { 0 };
    ProgressPlan {
        total_units: chunks + fin,
        finalize_base: chunks,
        lighting_at: chunks + fin / 2,
        encoding_at: chunks + (fin * 3) / 4,
    }
}

} // verus!
