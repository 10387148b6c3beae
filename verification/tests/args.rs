use worldraw::args::{parse_args, parse_dim, parse_scale, Args, ParsedArgs, HYPER_SAMPLE, SUPER_SAMPLE};

#[test]
fn parse_dim_validates_input() {
    assert_eq!(parse_dim("0"), Ok(0));
    assert_eq!(parse_dim("1"), Ok(1));
    assert_eq!(parse_dim("-1"), Ok(-1));
    assert!(parse_dim("abc").is_err());
    assert!(parse_dim("1.5").is_err());
}

#[test]
fn parse_dim_reports_the_value() {
    assert_eq!(parse_dim("abc"), Err("Invalid dimension id: \"abc\"".to_string()));
    assert_eq!(parse_dim("2147483648"), Err("Invalid dimension id: \"2147483648\"".to_string()));
    assert_eq!(parse_dim("-2147483648"), Ok(i32::MIN));
}

#[test]
fn parse_scale_needs_a_positive_integer() {
    assert_eq!(parse_scale("4"), Ok(4));
    assert_eq!(parse_scale("+4"), Ok(4));
    assert_eq!(parse_scale("0"), Err("Scale must be a positive integer (>= 1), got 0".to_string()));
    assert_eq!(parse_scale("-1"), Err("Invalid scale value: \"-1\"".to_string()));
    assert_eq!(parse_scale(""), Err("Invalid scale value: \"\"".to_string()));
    assert_eq!(parse_scale("4294967295"), Ok(u32::MAX));
    assert!(parse_scale("4294967296").is_err());
}

fn args(supersample: bool, hypersample: bool) -> Args {
    Args {
        world_path: String::new(),
        single: false,
        scale: 1,
        dim: 0,
        shadows: false,
        supersample,
        hypersample,
        ambient_occlusion: false,
        bloom: false,
        transparency: false,
        night: false,
    }
}

#[test]
fn upsample_factor_selects_the_requested_mode() {
    assert_eq!(args(false, false).upsample_factor(), None);
    assert_eq!(args(true, false).upsample_factor(), Some(SUPER_SAMPLE));
    assert_eq!(args(false, true).upsample_factor(), Some(HYPER_SAMPLE));
    assert_eq!(args(true, true).upsample_factor(), Some(HYPER_SAMPLE));
}

fn run(list: &[&str]) -> Result<ParsedArgs, String> {
    parse_args(&list.iter().map(|s| s.to_string()).collect())
}

#[test]
fn command_lines_parse_into_options() {
    match run(&["world", "-s", "-z", "2", "--dim=1", "-r", "-t", "-n"]).unwrap() {
        ParsedArgs::Run(a) => {
            assert_eq!(a.world_path, "world");
            assert!(a.single && a.shadows && a.transparency && a.night);
            assert_eq!(a.scale, 2);
            assert_eq!(a.dim, 1);
            assert!(!a.supersample && !a.hypersample);
        },
        ParsedArgs::Help => panic!("not a help request"),
    }
    match run(&["--hypersampling", "w", "-ao", "-b", "--scale=1"]) {
        Err(e) => assert_eq!(e, "--hypersampling (-hs) cannot be combined with --scale (-z/--scale)"),
        Ok(_) => panic!("scale and hypersampling conflict"),
    }
    assert_eq!(run(&["w", "-x", "-h"]).err().unwrap(), "Unexpected argument: -x");
}

#[test]
fn command_line_errors_come_in_order() {
    assert_eq!(run(&["a", "b"]).err().unwrap(), "Unexpected argument: b");
    assert_eq!(run(&["-z"]).err().unwrap(), "--scale requires a value (e.g. --scale 2)");
    assert_eq!(run(&["-d"]).err().unwrap(), "--dim requires a value (e.g. --dim 1)");
    assert_eq!(run(&[]).err().unwrap(), "Missing <path-to-world> argument");
    assert_eq!(
        run(&["w", "-ss", "-hs"]).err().unwrap(),
        "--supersample (-ss) and --hypersampling (-hs) cannot be combined"
    );
    assert_eq!(
        run(&["w", "-ao"]).err().unwrap(),
        "--ambient-occlusion (-ao) requires --supersample (-ss) or --hypersampling (-hs)"
    );
    assert_eq!(
        run(&["w", "-b"]).err().unwrap(),
        "--bloom (-b) requires --supersample (-ss) or --hypersampling (-hs)"
    );
    assert_eq!(
        run(&["w", "-ss", "-z", "3"]).err().unwrap(),
        "--supersample (-ss) cannot be combined with --scale (-z/--scale)"
    );
    assert!(matches!(run(&["-h", "a", "b"]), Ok(ParsedArgs::Help)));
}
