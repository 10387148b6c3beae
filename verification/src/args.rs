//! Command-line arguments: the parsed options, their validation rules, and
//! the sampling constants shared with the rendering layer.

use vstd::prelude::*;

use crate::text::{
    chars_of, debug_quoted, debug_string, has_prefix, parse_i32_chars, parse_i32_spec,
    parse_u32_chars, parse_u32_spec, push_str, skip_chars, starts_with, str_eq,
    string_from_chars,
};

verus! {

/// Supersampling factor: each block is drawn as a solid
/// `SUPER_SAMPLE x SUPER_SAMPLE` pixel square with no interpolation.
pub const SUPER_SAMPLE: u32 = 5;

/// Hypersampling factor: each block is drawn as a solid
/// `HYPER_SAMPLE x HYPER_SAMPLE` pixel square; like `SUPER_SAMPLE` zoomed in
/// 3x.
pub const HYPER_SAMPLE: u32 = 15;

/// Parsed command-line arguments.
pub struct Args {
    pub world_path: String,
    pub single: bool,
    pub scale: u32,
    pub dim: i32,
    pub shadows: bool,
    pub supersample: bool,
    pub hypersample: bool,
    pub ambient_occlusion: bool,
    pub bloom: bool,
    pub transparency: bool,
    pub night: bool,
}

/// Pixels per block of the chosen sampling mode: hypersampling wins over
/// supersampling; `None` when neither is on.
pub open spec fn upsample_of(supersample: bool, hypersample: bool) -> Option<u32> {
    if hypersample {
        Some(HYPER_SAMPLE)
    } else if supersample {
        Some(SUPER_SAMPLE)
    } else {
        None
    }
}

impl Args {
    /// Pixels-per-block upsample factor: `Some(15)` for hypersampling,
    /// `Some(5)` for supersampling, or `None` for native / scaled mode (in
    /// which case [`Args::scale`] applies instead).
    pub fn upsample_factor(&self) -> (r: Option<u32>)
        ensures
            r == upsample_of(self.supersample, self.hypersample),
    {
        if self.hypersample {
            Some(HYPER_SAMPLE)
        } else if self.supersample {
            Some(SUPER_SAMPLE)
        } else {
            None
        }
    }
}

/// The message for a scale value that is not an integer.
pub open spec fn invalid_scale_message(value: Seq<char>) -> Seq<char> {
    "Invalid scale value: "@ + debug_quoted(value)
}

/// The message for a scale of zero.
pub open spec fn zero_scale_message(value: Seq<char>) -> Seq<char> {
    "Scale must be a positive integer (>= 1), got "@ + value
}

/// A `--scale` value: a positive `u32`.
pub open spec fn scale_of(value: Seq<char>) -> Result<u32, Seq<char>> {
    match parse_u32_spec(value) {
        None => Err(invalid_scale_message(value)),
        Some(n) => if n < 1 {
            Err(zero_scale_message(value))
        } else {
            Ok(n)
        },
    }
}

/// The message for a dimension value that is not an integer.
pub open spec fn invalid_dim_message(value: Seq<char>) -> Seq<char> {
    "Invalid dimension id: "@ + debug_quoted(value)
}

/// A `--dim` value: any `i32` (whether it names a supported dimension is
/// checked separately by [`crate::dimension::dimension_info`]).
pub open spec fn dim_of(value: Seq<char>) -> Result<i32, Seq<char>> {
    match parse_i32_spec(value) {
        None => Err(invalid_dim_message(value)),
        Some(d) => Ok(d),
    }
}

/// The characters of a `Result<_, String>` error.
pub open spec fn err_view<T>(r: Result<T, String>) -> Result<T, Seq<char>> {
    match r {
        Ok(v) => Ok(v),
        Err(e) => Err(e@),
    }
}

fn message(prefix: &str, tail: &Vec<char>) -> (m: String)
    ensures
        m@ == prefix@ + tail@,
{
    let mut out: Vec<char> = Vec::new();
    push_str(&mut out, prefix);
    let mut i: usize = 0;
    while i < tail.len()
        invariant
            i <= tail@.len(),
            out@ == prefix@ + tail@.take(i as int),
        decreases tail@.len() - i,
    {
        out.push(tail[i]);
        assert(out@ =~= prefix@ + tail@.take(i + 1));
        i = i + 1;
    }
    assert(tail@.take(i as int) =~= tail@);
    string_from_chars(out.as_slice())
}

fn scale_from_chars(value: &Vec<char>) -> (r: Result<u32, String>)
    ensures
        err_view(r) == scale_of(value@),
{
    match parse_u32_chars(value) {
        None => {
            let s = string_from_chars(value.as_slice());
            let d = debug_string(s.as_str());
            Err(message("Invalid scale value: ", &chars_of(d.as_str())))
        },
        Some(n) => {
            if n < 1 {
                Err(message("Scale must be a positive integer (>= 1), got ", value))
            } else {
                Ok(n)
            }
        },
    }
}

fn dim_from_chars(value: &Vec<char>) -> (r: Result<i32, String>)
    ensures
        err_view(r) == dim_of(value@),
{
    match parse_i32_chars(value) {
        None => {
            let s = string_from_chars(value.as_slice());
            let d = debug_string(s.as_str());
            Err(message("Invalid dimension id: ", &chars_of(d.as_str())))
        },
        Some(d) => Ok(d),
    }
}

/// Parse and validate a `--scale` value: a positive integer (>= 1).
pub fn parse_scale(value: &str) -> (r: Result<u32, String>)
    ensures
        err_view(r) == scale_of(value@),
{
    scale_from_chars(&chars_of(value))
}

/// Parse and validate a `--dim` value: it must be a (signed) integer.
///
/// Whether the integer names a supported dimension is checked separately by
/// [`crate::dimension::dimension_info`], which also reports the set of valid
/// ids.
pub fn parse_dim(value: &str) -> (r: Result<i32, String>)
    ensures
        err_view(r) == dim_of(value@),
{
    dim_from_chars(&chars_of(value))
}

/// The options read so far while scanning the command line.
pub struct ArgScan {
    pub world_path: Option<String>,
    pub single: bool,
    pub scale: u32,
    pub scale_set: bool,
    pub dim: i32,
    pub shadows: bool,
    pub supersample: bool,
    pub hypersample: bool,
    pub ambient_occlusion: bool,
    pub bloom: bool,
    pub transparency: bool,
    pub night: bool,
}

/// The defaults: no world path, one block per pixel, the overworld, every
/// option off.
pub open spec fn initial_scan() -> ArgScan {
    ArgScan {
        world_path: None,
        single: false,
        scale: 1,
        scale_set: false,
        dim: 0,
        shadows: false,
        supersample: false,
        hypersample: false,
        ambient_occlusion: false,
        bloom: false,
        transparency: false,
        night: false,
    }
}

/// Scan the arguments from index `i` on, left to right: each flag sets its
/// option (later ones win), `--scale` / `-z` and `--dim` / `-d` take the next
/// argument as their value (`--scale=N` and `--dim=N` carry it inline), the
/// first other argument is the world path. `Err(None)` asks for help, which
/// stops the scan; `Err(Some(message))` is the first error met.
pub open spec fn scan_args(raw: Seq<String>, i: int, st: ArgScan) -> Result<ArgScan, Option<Seq<char>>>
    decreases raw.len() - i,
{
    if i < 0 || i >= raw.len() {
        Ok(st)
    } else {
        let a = raw[i]@;
        if a == "--single"@ || a == "--big"@ || a == "-s"@ {
            scan_args(raw, i + 1, ArgScan { single: true, ..st })
        } else if a == "--shadows"@ || a == "--shadow"@ || a == "-r"@ {
            scan_args(raw, i + 1, ArgScan { shadows: true, ..st })
        } else if a == "--supersample"@ || a == "-ss"@ {
            scan_args(raw, i + 1, ArgScan { supersample: true, ..st })
        } else if a == "--hypersampling"@ || a == "--hypersample"@ || a == "-hs"@ {
            scan_args(raw, i + 1, ArgScan { hypersample: true, ..st })
        } else if a == "--ambient-occlusion"@ || a == "-ao"@ {
            scan_args(raw, i + 1, ArgScan { ambient_occlusion: true, ..st })
        } else if a == "--bloom"@ || a == "-b"@ {
            scan_args(raw, i + 1, ArgScan { bloom: true, ..st })
        } else if a == "--transparency"@ || a == "-t"@ {
            scan_args(raw, i + 1, ArgScan { transparency: true, ..st })
        } else if a == "--night"@ || a == "-n"@ {
            scan_args(raw, i + 1, ArgScan { night: true, ..st })
        } else if a == "--help"@ || a == "-h"@ {
            Err(None)
        } else if a == "--scale"@ || a == "-z"@ {
            if i + 1 >= raw.len() {
                Err(Some("--scale requires a value (e.g. --scale 2)"@))
            } else {
                match scale_of(raw[i + 1]@) {
                    Ok(n) => scan_args(raw, i + 2, ArgScan { scale: n, scale_set: true, ..st }),
                    Err(m) => Err(Some(m)),
                }
            }
        } else if has_prefix(a, "--scale="@) {
            match scale_of(a.skip("--scale="@.len() as int)) {
                Ok(n) => scan_args(raw, i + 1, ArgScan { scale: n, scale_set: true, ..st }),
                Err(m) => Err(Some(m)),
            }
        } else if a == "--dim"@ || a == "-d"@ {
            if i + 1 >= raw.len() {
                Err(Some("--dim requires a value (e.g. --dim 1)"@))
            } else {
                match dim_of(raw[i + 1]@) {
                    Ok(d) => scan_args(raw, i + 2, ArgScan { dim: d, ..st }),
                    Err(m) => Err(Some(m)),
                }
            }
        } else if has_prefix(a, "--dim="@) {
            match dim_of(a.skip("--dim="@.len() as int)) {
                Ok(d) => scan_args(raw, i + 1, ArgScan { dim: d, ..st }),
                Err(m) => Err(Some(m)),
            }
        } else if st.world_path is Some {
            Err(Some("Unexpected argument: "@ + a))
        } else {
            scan_args(raw, i + 1, ArgScan { world_path: Some(raw[i]), ..st })
        }
    }
}

/// The rules on a complete scan: the two sampling modes exclude each other
/// and `--scale`, ambient occlusion and bloom need a sampling mode, and a
/// world path is required.
pub open spec fn finish_args(st: ArgScan) -> Result<Args, Seq<char>> {
    if st.supersample && st.hypersample {
        Err("--supersample (-ss) and --hypersampling (-hs) cannot be combined"@)
    } else if st.hypersample && st.scale_set {
        Err("--hypersampling (-hs) cannot be combined with --scale (-z/--scale)"@)
    } else if st.supersample && st.scale_set {
        Err("--supersample (-ss) cannot be combined with --scale (-z/--scale)"@)
    } else if st.ambient_occlusion && !(st.supersample || st.hypersample) {
        Err("--ambient-occlusion (-ao) requires --supersample (-ss) or --hypersampling (-hs)"@)
    } else if st.bloom && !(st.supersample || st.hypersample) {
        Err("--bloom (-b) requires --supersample (-ss) or --hypersampling (-hs)"@)
    } else {
        match st.world_path {
            None => Err("Missing <path-to-world> argument"@),
            Some(w) => Ok(
                Args {
                    world_path: w,
                    single: st.single,
                    scale: st.scale,
                    dim: st.dim,
                    shadows: st.shadows,
                    supersample: st.supersample,
                    hypersample: st.hypersample,
                    ambient_occlusion: st.ambient_occlusion,
                    bloom: st.bloom,
                    transparency: st.transparency,
                    night: st.night,
                },
            ),
        }
    }
}

/// The outcome of a command line: `Ok(None)` asks for the usage text,
/// `Ok(Some(args))` runs, `Err` carries the message to report.
pub open spec fn args_outcome(raw: Seq<String>) -> Result<Option<Args>, Seq<char>> {
    match scan_args(raw, 0, initial_scan()) {
        Err(None) => Ok(None),
        Err(Some(m)) => Err(m),
        Ok(st) => match finish_args(st) {
            Ok(a) => Ok(Some(a)),
            Err(m) => Err(m),
        },
    }
}

/// A scan keeps the scale positive, and at 1 unless `--scale` set it.
#[verifier::rlimit(100)]
pub proof fn lemma_scan_keeps_scale(raw: Seq<String>, i: int, st: ArgScan)
    requires
        st.scale >= 1,
        !st.scale_set ==> st.scale == 1,
    ensures
        scan_args(raw, i, st) matches Ok(fin) ==> fin.scale >= 1 && (!fin.scale_set ==> fin.scale == 1),
    decreases raw.len() - i,
{
    if 0 <= i < raw.len() {
        let a = raw[i]@;
        if a == "--single"@ || a == "--big"@ || a == "-s"@ {
            lemma_scan_keeps_scale(raw, i + 1, ArgScan { single: true, ..st });
        } else if a == "--shadows"@ || a == "--shadow"@ || a == "-r"@ {
            lemma_scan_keeps_scale(raw, i + 1, ArgScan { shadows: true, ..st });
        } else if a == "--supersample"@ || a == "-ss"@ {
            lemma_scan_keeps_scale(raw, i + 1, ArgScan { supersample: true, ..st });
        } else if a == "--hypersampling"@ || a == "--hypersample"@ || a == "-hs"@ {
            lemma_scan_keeps_scale(raw, i + 1, ArgScan { hypersample: true, ..st });
        } else if a == "--ambient-occlusion"@ || a == "-ao"@ {
            lemma_scan_keeps_scale(raw, i + 1, ArgScan { ambient_occlusion: true, ..st });
        } else if a == "--bloom"@ || a == "-b"@ {
            lemma_scan_keeps_scale(raw, i + 1, ArgScan { bloom: true, ..st });
        } else if a == "--transparency"@ || a == "-t"@ {
            lemma_scan_keeps_scale(raw, i + 1, ArgScan { transparency: true, ..st });
        } else if a == "--night"@ || a == "-n"@ {
            lemma_scan_keeps_scale(raw, i + 1, ArgScan { night: true, ..st });
        } else if a == "--help"@ || a == "-h"@ {
        } else if a == "--scale"@ || a == "-z"@ {
            if i + 1 < raw.len() {
                if let Ok(n) = scale_of(raw[i + 1]@) {
                    lemma_scan_keeps_scale(raw, i + 2, ArgScan { scale: n, scale_set: true, ..st });
                }
            }
        } else if has_prefix(a, "--scale="@) {
            if let Ok(n) = scale_of(a.skip("--scale="@.len() as int)) {
                lemma_scan_keeps_scale(raw, i + 1, ArgScan { scale: n, scale_set: true, ..st });
            }
        } else if a == "--dim"@ || a == "-d"@ {
            if i + 1 < raw.len() {
                if let Ok(d) = dim_of(raw[i + 1]@) {
                    lemma_scan_keeps_scale(raw, i + 2, ArgScan { dim: d, ..st });
                }
            }
        } else if has_prefix(a, "--dim="@) {
            if let Ok(d) = dim_of(a.skip("--dim="@.len() as int)) {
                lemma_scan_keeps_scale(raw, i + 1, ArgScan { dim: d, ..st });
            }
        } else if st.world_path is None {
            lemma_scan_keeps_scale(raw, i + 1, ArgScan { world_path: Some(raw[i]), ..st });
        }
    }
}

/// Every flag the command line knows starts with `-`, and flags of the same
/// length differ in the character given here.
proof fn lemma_flag_literals()
    ensures
        "--single"@.len() == 8 && "--single"@[0] == '-' && "--single"@[3] == 'i',
        "--big"@.len() == 5 && "--big"@[0] == '-' && "--big"@[2] == 'b',
        "-s"@.len() == 2 && "-s"@[0] == '-' && "-s"@[1] == 's',
        "--shadows"@.len() == 9 && "--shadows"@[0] == '-',
        "--shadow"@.len() == 8 && "--shadow"@[0] == '-' && "--shadow"@[3] == 'h',
        "-r"@.len() == 2 && "-r"@[0] == '-' && "-r"@[1] == 'r',
        "--supersample"@.len() == 13 && "--supersample"@[0] == '-' && "--supersample"@[2] == 's',
        "-ss"@.len() == 3 && "-ss"@[0] == '-' && "-ss"@[1] == 's',
        "--hypersampling"@.len() == 15 && "--hypersampling"@[0] == '-',
        "--hypersample"@.len() == 13 && "--hypersample"@[0] == '-' && "--hypersample"@[2] == 'h',
        "-hs"@.len() == 3 && "-hs"@[0] == '-' && "-hs"@[1] == 'h',
        "--ambient-occlusion"@.len() == 19 && "--ambient-occlusion"@[0] == '-',
        "-ao"@.len() == 3 && "-ao"@[0] == '-' && "-ao"@[1] == 'a',
        "--bloom"@.len() == 7 && "--bloom"@[0] == '-' && "--bloom"@[2] == 'b',
        "-b"@.len() == 2 && "-b"@[0] == '-' && "-b"@[1] == 'b',
        "--transparency"@.len() == 14 && "--transparency"@[0] == '-',
        "-t"@.len() == 2 && "-t"@[0] == '-' && "-t"@[1] == 't',
        "--night"@.len() == 7 && "--night"@[0] == '-' && "--night"@[2] == 'n',
        "-n"@.len() == 2 && "-n"@[0] == '-' && "-n"@[1] == 'n',
        "--help"@.len() == 6 && "--help"@[0] == '-' && "--help"@[2] == 'h',
        "-h"@.len() == 2 && "-h"@[0] == '-' && "-h"@[1] == 'h',
        "--scale"@.len() == 7 && "--scale"@[0] == '-' && "--scale"@[2] == 's',
        "-z"@.len() == 2 && "-z"@[0] == '-' && "-z"@[1] == 'z',
        "--scale="@.len() == 8 && "--scale="@[0] == '-' && "--scale="@[3] == 'c',
        "--dim"@.len() == 5 && "--dim"@[0] == '-' && "--dim"@[2] == 'd',
        "-d"@.len() == 2 && "-d"@[0] == '-' && "-d"@[1] == 'd',
        "--dim="@.len() == 6 && "--dim="@[0] == '-' && "--dim="@[2] == 'd',
{
    reveal_strlit("--single");
    reveal_strlit("--big");
    reveal_strlit("-s");
    reveal_strlit("--shadows");
    reveal_strlit("--shadow");
    reveal_strlit("-r");
    reveal_strlit("--supersample");
    reveal_strlit("-ss");
    reveal_strlit("--hypersampling");
    reveal_strlit("--hypersample");
    reveal_strlit("-hs");
    reveal_strlit("--ambient-occlusion");
    reveal_strlit("-ao");
    reveal_strlit("--bloom");
    reveal_strlit("-b");
    reveal_strlit("--transparency");
    reveal_strlit("-t");
    reveal_strlit("--night");
    reveal_strlit("-n");
    reveal_strlit("--help");
    reveal_strlit("-h");
    reveal_strlit("--scale");
    reveal_strlit("-z");
    reveal_strlit("--scale=");
    reveal_strlit("--dim");
    reveal_strlit("-d");
    reveal_strlit("--dim=");
}

/// A word that does not start with `-` is never a flag: the scan takes it as
/// the world path.
proof fn lemma_path_is_not_a_flag(raw: Seq<String>, i: int, st: ArgScan)
    requires
        0 <= i < raw.len(),
        raw[i]@.len() > 0,
        raw[i]@[0] != '-',
        st.world_path is None,
    ensures
        scan_args(raw, i, st) == scan_args(raw, i + 1, ArgScan { world_path: Some(raw[i]), ..st }),
{
    lemma_flag_literals();
    let a = raw[i]@;
    assert(!has_prefix(a, "--scale="@)) by {
        if has_prefix(a, "--scale="@) {
            assert(a.take(8)[0] == "--scale="@[0]);
        }
    }
    assert(!has_prefix(a, "--dim="@)) by {
        if has_prefix(a, "--dim="@) {
            assert(a.take(6)[0] == "--dim="@[0]);
        }
    }
}

/// The value after `-d` / `--dim` is the dimension, and the value after
/// `-z` / `--scale` is the scale: each belongs to its flag and is never read
/// as the world path. `world FLAG v` and `FLAG v world` both render `world`,
/// with `v` as the dimension when it is an integer, or as the scale when it
/// is a positive integer; every other option keeps its default.
pub proof fn lemma_flag_takes_its_value(w: String, flag: String, v: String)
    requires
        w@.len() > 0,
        w@[0] != '-',
    ensures
        ((flag@ == "-d"@ || flag@ == "--dim"@) && parse_i32_spec(v@) is Some) ==> {
            &&& args_outcome(seq![w, flag, v]) matches Ok(Some(a)) && a.dim == parse_i32_spec(v@)->0
                && a.world_path == w && a.scale == 1
            &&& args_outcome(seq![flag, v, w]) matches Ok(Some(a)) && a.dim == parse_i32_spec(v@)->0
                && a.world_path == w && a.scale == 1
        },
        ((flag@ == "-z"@ || flag@ == "--scale"@) && (parse_u32_spec(v@) is Some && parse_u32_spec(v@)->0 >= 1)) ==> {
            &&& args_outcome(seq![w, flag, v]) matches Ok(Some(a)) && a.scale == parse_u32_spec(v@)->0
                && a.world_path == w && a.dim == 0
            &&& args_outcome(seq![flag, v, w]) matches Ok(Some(a)) && a.scale == parse_u32_spec(v@)->0
                && a.world_path == w && a.dim == 0
        },
{
    lemma_flag_literals();
    let st0 = initial_scan();
    let r1 = seq![w, flag, v];
    let r2 = seq![flag, v, w];
    lemma_path_is_not_a_flag(r1, 0, st0);
    let st1 = ArgScan { world_path: Some(w), ..st0 };
    if (flag@ == "-d"@ || flag@ == "--dim"@) && parse_i32_spec(v@) is Some {
        let d = parse_i32_spec(v@)->0;
        assert(dim_of(v@) == Ok::<i32, Seq<char>>(d));
        assert(scan_args(r1, 1, st1) == scan_args(r1, 3, ArgScan { dim: d, ..st1 }));
        assert(scan_args(r2, 0, st0) == scan_args(r2, 2, ArgScan { dim: d, ..st0 }));
        lemma_path_is_not_a_flag(r2, 2, ArgScan { dim: d, ..st0 });
    }
    if (flag@ == "-z"@ || flag@ == "--scale"@) && parse_u32_spec(v@) is Some && parse_u32_spec(v@)->0 >= 1 {
        let n = parse_u32_spec(v@)->0;
        assert(scale_of(v@) == Ok::<u32, Seq<char>>(n));
        assert(scan_args(r1, 1, st1) == scan_args(r1, 3, ArgScan { scale: n, scale_set: true, ..st1 }));
        assert(scan_args(r2, 0, st0) == scan_args(r2, 2, ArgScan { scale: n, scale_set: true, ..st0 }));
        lemma_path_is_not_a_flag(r2, 2, ArgScan { scale: n, scale_set: true, ..st0 });
    }
}

/// The options of a command line that names only the world `w`.
pub open spec fn default_args(w: String) -> Args {
    Args {
        world_path: w,
        single: false,
        scale: 1,
        dim: 0,
        shadows: false,
        supersample: false,
        hypersample: false,
        ambient_occlusion: false,
        bloom: false,
        transparency: false,
        night: false,
    }
}

/// Each switch turns on its own option and no other, before or after the
/// world path: `--single`, `--shadows`, `--supersample`, `--hypersampling`,
/// `--transparency` and `--night` (and their other spellings) each set one
/// field over the defaults; ambient occlusion and bloom alone are refused,
/// since they need a sampling mode; and `--help` asks for the usage text.
pub proof fn lemma_switch_sets_its_option(w: String, flag: String)
    requires
        w@.len() > 0,
        w@[0] != '-',
    ensures
        (flag@ == "--single"@ || flag@ == "--big"@ || flag@ == "-s"@) ==> args_outcome(seq![w, flag]) == Ok::<Option<Args>, Seq<char>>(Some(Args { single: true, ..default_args(w) }))
            && args_outcome(seq![flag, w]) == Ok::<Option<Args>, Seq<char>>(Some(Args { single: true, ..default_args(w) })),
        (flag@ == "--shadows"@ || flag@ == "--shadow"@ || flag@ == "-r"@) ==> args_outcome(seq![w, flag]) == Ok::<Option<Args>, Seq<char>>(Some(Args { shadows: true, ..default_args(w) }))
            && args_outcome(seq![flag, w]) == Ok::<Option<Args>, Seq<char>>(Some(Args { shadows: true, ..default_args(w) })),
        (flag@ == "--supersample"@ || flag@ == "-ss"@) ==> args_outcome(seq![w, flag]) == Ok::<Option<Args>, Seq<char>>(Some(Args { supersample: true, ..default_args(w) }))
            && args_outcome(seq![flag, w]) == Ok::<Option<Args>, Seq<char>>(Some(Args { supersample: true, ..default_args(w) })),
        (flag@ == "--hypersampling"@ || flag@ == "--hypersample"@ || flag@ == "-hs"@) ==> args_outcome(seq![w, flag]) == Ok::<Option<Args>, Seq<char>>(Some(Args { hypersample: true, ..default_args(w) }))
            && args_outcome(seq![flag, w]) == Ok::<Option<Args>, Seq<char>>(Some(Args { hypersample: true, ..default_args(w) })),
        (flag@ == "--transparency"@ || flag@ == "-t"@) ==> args_outcome(seq![w, flag]) == Ok::<Option<Args>, Seq<char>>(Some(Args { transparency: true, ..default_args(w) }))
            && args_outcome(seq![flag, w]) == Ok::<Option<Args>, Seq<char>>(Some(Args { transparency: true, ..default_args(w) })),
        (flag@ == "--night"@ || flag@ == "-n"@) ==> args_outcome(seq![w, flag]) == Ok::<Option<Args>, Seq<char>>(Some(Args { night: true, ..default_args(w) }))
            && args_outcome(seq![flag, w]) == Ok::<Option<Args>, Seq<char>>(Some(Args { night: true, ..default_args(w) })),
        (flag@ == "--ambient-occlusion"@ || flag@ == "-ao"@ || flag@ == "--bloom"@ || flag@ == "-b"@) ==> args_outcome(
            seq![w, flag],
        ) is Err && args_outcome(seq![flag, w]) is Err,
        (flag@ == "--help"@ || flag@ == "-h"@) ==> args_outcome(seq![w, flag]) == Ok::<Option<Args>, Seq<char>>(None)
            && args_outcome(seq![flag, w]) == Ok::<Option<Args>, Seq<char>>(None),
{
    lemma_flag_literals();
    let st0 = initial_scan();
    let r1 = seq![w, flag];
    let r2 = seq![flag, w];
    lemma_path_is_not_a_flag(r1, 0, st0);
    let st1 = ArgScan { world_path: Some(w), ..st0 };
    let a = flag@;
    if a == "--single"@ || a == "--big"@ || a == "-s"@ {
        lemma_path_is_not_a_flag(r2, 1, ArgScan { single: true, ..st0 });
        assert(scan_args(r1, 2, ArgScan { single: true, ..st1 }) == Ok::<ArgScan, Option<Seq<char>>>(ArgScan { single: true, ..st1 }));
    } else if a == "--shadows"@ || a == "--shadow"@ || a == "-r"@ {
        lemma_path_is_not_a_flag(r2, 1, ArgScan { shadows: true, ..st0 });
        assert(scan_args(r1, 2, ArgScan { shadows: true, ..st1 }) == Ok::<ArgScan, Option<Seq<char>>>(ArgScan { shadows: true, ..st1 }));
    } else if a == "--supersample"@ || a == "-ss"@ {
        lemma_path_is_not_a_flag(r2, 1, ArgScan { supersample: true, ..st0 });
        assert(scan_args(r1, 2, ArgScan { supersample: true, ..st1 }) == Ok::<ArgScan, Option<Seq<char>>>(ArgScan { supersample: true, ..st1 }));
    } else if a == "--hypersampling"@ || a == "--hypersample"@ || a == "-hs"@ {
        lemma_path_is_not_a_flag(r2, 1, ArgScan { hypersample: true, ..st0 });
        assert(scan_args(r1, 2, ArgScan { hypersample: true, ..st1 }) == Ok::<ArgScan, Option<Seq<char>>>(ArgScan { hypersample: true, ..st1 }));
    } else if a == "--ambient-occlusion"@ || a == "-ao"@ {
        lemma_path_is_not_a_flag(r2, 1, ArgScan { ambient_occlusion: true, ..st0 });
        assert(scan_args(r1, 2, ArgScan { ambient_occlusion: true, ..st1 }) == Ok::<ArgScan, Option<Seq<char>>>(ArgScan { ambient_occlusion: true, ..st1 }));
    } else if a == "--bloom"@ || a == "-b"@ {
        lemma_path_is_not_a_flag(r2, 1, ArgScan { bloom: true, ..st0 });
        assert(scan_args(r1, 2, ArgScan { bloom: true, ..st1 }) == Ok::<ArgScan, Option<Seq<char>>>(ArgScan { bloom: true, ..st1 }));
    } else if a == "--transparency"@ || a == "-t"@ {
        lemma_path_is_not_a_flag(r2, 1, ArgScan { transparency: true, ..st0 });
        assert(scan_args(r1, 2, ArgScan { transparency: true, ..st1 }) == Ok::<ArgScan, Option<Seq<char>>>(ArgScan { transparency: true, ..st1 }));
    } else if a == "--night"@ || a == "-n"@ {
        lemma_path_is_not_a_flag(r2, 1, ArgScan { night: true, ..st0 });
        assert(scan_args(r1, 2, ArgScan { night: true, ..st1 }) == Ok::<ArgScan, Option<Seq<char>>>(ArgScan { night: true, ..st1 }));
    }
}

/// What a command line asks for.
pub enum ParsedArgs {
    /// Print the usage text and stop.
    Help,
    /// Render with these options.
    Run(Args),
}

/// The outcome of [`parse_args`], by value.
pub open spec fn parsed_view(r: Result<ParsedArgs, String>) -> Result<Option<Args>, Seq<char>> {
    match r {
        Ok(ParsedArgs::Help) => Ok(None),
        Ok(ParsedArgs::Run(a)) => Ok(Some(a)),
        Err(e) => Err(e@),
    }
}

fn text(s: &str) -> (r: String)
    ensures
        r@ == s@,
{
    let cs = chars_of(s);
    string_from_chars(cs.as_slice())
}

/// Parse the command-line arguments (without the program name).
#[verifier::rlimit(80)]
pub fn parse_args(raw: &Vec<String>) -> (r: Result<ParsedArgs, String>)
    ensures
        parsed_view(r) == args_outcome(raw@),
{
    let mut st = ArgScan {
        world_path: None,
        single: false,
        scale: 1,
        scale_set: false,
        dim: 0,
        shadows: false,
        supersample: false,
        hypersample: false,
        ambient_occlusion: false,
        bloom: false,
        transparency: false,
        night: false,
    };
    let mut i: usize = 0;
    while i < raw.len()
        invariant
            i <= raw@.len(),
            scan_args(raw@, 0, initial_scan()) == scan_args(raw@, i as int, st),
        decreases raw@.len() - i,
    {
        let a = raw[i].as_str();
        let ghost av = raw@[i as int]@;
        assert(a@ == av);
        if str_eq(a, "--single") || str_eq(a, "--big") || str_eq(a, "-s") {
            st.single = true;
            i = i + 1;
        } else if str_eq(a, "--shadows") || str_eq(a, "--shadow") || str_eq(a, "-r") {
            st.shadows = true;
            i = i + 1;
        } else if str_eq(a, "--supersample") || str_eq(a, "-ss") {
            st.supersample = true;
            i = i + 1;
        } else if str_eq(a, "--hypersampling") || str_eq(a, "--hypersample") || str_eq(a, "-hs") {
            st.hypersample = true;
            i = i + 1;
        } else if str_eq(a, "--ambient-occlusion") || str_eq(a, "-ao") {
            st.ambient_occlusion = true;
            i = i + 1;
        } else if str_eq(a, "--bloom") || str_eq(a, "-b") {
            st.bloom = true;
            i = i + 1;
        } else if str_eq(a, "--transparency") || str_eq(a, "-t") {
            st.transparency = true;
            i = i + 1;
        } else if str_eq(a, "--night") || str_eq(a, "-n") {
            st.night = true;
            i = i + 1;
        } else if str_eq(a, "--help") || str_eq(a, "-h") {
            return Ok(ParsedArgs::Help);
        } else if str_eq(a, "--scale") || str_eq(a, "-z") {
            if i + 1 >= raw.len() {
                return Err(text("--scale requires a value (e.g. --scale 2)"));
            }
            match scale_from_chars(&chars_of(raw[i + 1].as_str())) {
                Ok(n) => {
                    st.scale = n;
                    st.scale_set = true;
                    i = i + 2;
                },
                Err(m) => {
                    return Err(m);
                },
            }
        } else if starts_with(&chars_of(a), "--scale=") {
            let cs = chars_of(a);
            let prefix = chars_of("--scale=");
            match scale_from_chars(&skip_chars(&cs, prefix.len())) {
                Ok(n) => {
                    st.scale = n;
                    st.scale_set = true;
                    i = i + 1;
                },
                Err(m) => {
                    return Err(m);
                },
            }
        } else if str_eq(a, "--dim") || str_eq(a, "-d") {
            if i + 1 >= raw.len() {
                return Err(text("--dim requires a value (e.g. --dim 1)"));
            }
            match dim_from_chars(&chars_of(raw[i + 1].as_str())) {
                Ok(d) => {
                    st.dim = d;
                    i = i + 2;
                },
                Err(m) => {
                    return Err(m);
                },
            }
        } else if starts_with(&chars_of(a), "--dim=") {
            let cs = chars_of(a);
            let prefix = chars_of("--dim=");
            match dim_from_chars(&skip_chars(&cs, prefix.len())) {
                Ok(d) => {
                    st.dim = d;
                    i = i + 1;
                },
                Err(m) => {
                    return Err(m);
                },
            }
        } else if st.world_path.is_some() {
            return Err(message("Unexpected argument: ", &chars_of(a)));
        } else {
            st.world_path = Some(raw[i].clone());
            i = i + 1;
        }
    }
    if st.supersample && st.hypersample {
        return Err(text("--supersample (-ss) and --hypersampling (-hs) cannot be combined"));
    }
    if st.hypersample && st.scale_set {
        return Err(text("--hypersampling (-hs) cannot be combined with --scale (-z/--scale)"));
    }
    if st.supersample && st.scale_set {
        return Err(text("--supersample (-ss) cannot be combined with --scale (-z/--scale)"));
    }
    if st.ambient_occlusion && !(st.supersample || st.hypersample) {
        return Err(text("--ambient-occlusion (-ao) requires --supersample (-ss) or --hypersampling (-hs)"));
    }
    if st.bloom && !(st.supersample || st.hypersample) {
        return Err(text("--bloom (-b) requires --supersample (-ss) or --hypersampling (-hs)"));
    }
    match st.world_path {
        None => Err(text("Missing <path-to-world> argument")),
        Some(w) => Ok(
            ParsedArgs::Run(
                Args {
                    world_path: w,
                    single: st.single,
                    scale: st.scale,
                    dim: st.dim,
                    shadows: st.shadows,
                    supersample: st.supersample,
                    hypersample: st.hypersample,
                    ambient_occlusion: st.ambient_occlusion,
                    bloom: st.bloom,
                    transparency: st.transparency,
                    night: st.night,
                },
            ),
        ),
    }
}

} // verus!
