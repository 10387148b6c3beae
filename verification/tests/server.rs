use worldraw::server::{
    build_config, error_json, extract_boundary, extract_header, find_bytes, find_bytes_from,
    hex_val, job_id, job_is_stale, json_string, looks_like_zip, parse_multipart, progress_json, query_value,
    route, safe_join, split_headers_content, split_multipart, unquote, upload_kind, url_decode,
    zip_entry_name, zip_file_name, FilePart, HttpMethod, Route, UploadKind, index_html,
};
use worldraw::pipeline::RenderConfig;

const BOUNDARY: &str = "BOUNDARY123";

fn build_multipart(text_fields: &[(&str, &str)], file_name: &str, file_data: &[u8]) -> Vec<u8> {
    let mut body = Vec::new();
    for (name, value) in text_fields {
        body.extend_from_slice(
            format!("--{BOUNDARY}\r\nContent-Disposition: form-data; name=\"{name}\"\r\n\r\n{value}\r\n").as_bytes(),
        );
    }
    body.extend_from_slice(format!(
        "--{BOUNDARY}\r\nContent-Disposition: form-data; name=\"world\"; filename=\"{file_name}\"\r\nContent-Type: application/zip\r\n\r\n"
    )
    .as_bytes());
    body.extend_from_slice(file_data);
    body.extend_from_slice(format!("\r\n--{BOUNDARY}--\r\n").as_bytes());
    body
}

fn content_type() -> String {
    format!("multipart/form-data; boundary={BOUNDARY}")
}

fn config_for(text_fields: &[(&str, &str)]) -> RenderConfig {
    let body = build_multipart(text_fields, "world.zip", b"PK\x03\x04zipdata");
    let parsed = parse_multipart(&body, Some(&content_type())).expect("multipart should parse");
    build_config(&parsed.fields, "world".to_string(), "out".to_string()).expect("config")
}

#[test]
fn multipart_field_names_are_unquoted() {
    let body = build_multipart(&[("sampling", "supersample")], "world.zip", b"PKzipdata");
    let parsed = parse_multipart(&body, Some(&content_type())).expect("parse");
    assert_eq!(parsed.fields.get("sampling").map(String::as_str), Some("supersample"));
    assert!(!parsed.fields.contains_key("\"sampling\""), "field name must not retain its quotes");
}

#[test]
fn sampling_radio_selects_supersample() {
    let config = config_for(&[("sampling", "supersample")]);
    assert!(config.supersample, "radio should enable supersampling");
    assert!(!config.hypersample);
}

#[test]
fn sampling_radio_selects_hypersample() {
    let config = config_for(&[("sampling", "hypersample")]);
    assert!(config.hypersample, "radio should enable hypersampling");
    assert!(!config.supersample);
}

#[test]
fn sampling_normal_disables_sampling_even_if_legacy_flag_present() {
    let config = config_for(&[("sampling", "normal"), ("supersample", "on")]);
    assert!(!config.supersample && !config.hypersample);
}

#[test]
fn legacy_boolean_flags_still_work_when_no_sampling_is_sent() {
    let config = config_for(&[("supersample", "on")]);
    assert!(config.supersample && !config.hypersample);
}

#[test]
fn other_options_are_parsed_from_unquoted_names() {
    let config = config_for(&[("dimension", "nether"), ("mode", "chunks"), ("scale", "2"), ("night", "on")]);
    assert_eq!(config.dim, 1);
    assert!(!config.single);
    assert_eq!(config.scale, 2);
    assert!(config.night);
}

#[test]
fn form_errors_name_the_bad_value() {
    let body = build_multipart(&[("dimension", "mars")], "w.zip", b"PK");
    let parsed = parse_multipart(&body, Some(&content_type())).unwrap();
    let err = build_config(&parsed.fields, "w".to_string(), "o".to_string()).err().unwrap();
    assert_eq!(err, "unknown dimension 'mars' (use overworld, nether, or the_end)");

    let body = build_multipart(&[("mode", "tiles")], "w.zip", b"PK");
    let parsed = parse_multipart(&body, Some(&content_type())).unwrap();
    let err = build_config(&parsed.fields, "w".to_string(), "o".to_string()).err().unwrap();
    assert_eq!(err, "unknown mode 'tiles' (use single or chunks)");

    let body = build_multipart(&[("scale", "0")], "w.zip", b"PK");
    let parsed = parse_multipart(&body, Some(&content_type())).unwrap();
    let err = build_config(&parsed.fields, "w".to_string(), "o".to_string()).err().unwrap();
    assert_eq!(err, "scale must be a positive integer");

    let body = build_multipart(&[("ao", "on")], "w.zip", b"PK");
    let parsed = parse_multipart(&body, Some(&content_type())).unwrap();
    let err = build_config(&parsed.fields, "w".to_string(), "o".to_string()).err().unwrap();
    assert_eq!(err, "Ambient occlusion requires supersampling or hypersampling");
}

#[test]
fn multipart_parts_and_files_are_separated() {
    let body = build_multipart(&[("a", " x "), ("b", "y")], "w.zip", b"PKdata");
    let parsed = parse_multipart(&body, Some(&content_type())).unwrap();
    assert_eq!(parsed.fields.get("a").map(String::as_str), Some(" x "));
    assert_eq!(parsed.parts.len(), 1);
    assert_eq!(parsed.parts[0].file_name.as_deref(), Some("w.zip"));
    assert_eq!(parsed.parts[0].data, b"PKdata".to_vec());
    assert_eq!(
        parse_multipart(&body, None).err().unwrap(),
        "not a multipart/form-data body (missing boundary)"
    );
    let raws = split_multipart(&body, BOUNDARY);
    assert_eq!(raws.len(), 3);
}

#[test]
fn boundaries_are_found_case_insensitively() {
    assert_eq!(extract_boundary("multipart/form-data; BOUNDARY=AbC; x=1"), Some("AbC".to_string()));
    assert_eq!(extract_boundary("multipart/form-data; boundary=\"q\""), Some("".to_string()));
    assert_eq!(extract_boundary("text/plain"), None);
}

#[test]
fn header_values_are_read_per_line() {
    let h = b"Content-Disposition: form-data; name=\"f\"; filename=\"a.zip\"\r\r\nX: y";
    assert_eq!(extract_header(h, "filename").as_deref(), Some("\"a.zip\""));
    assert_eq!(extract_header(h, "missing"), None);
    let (head, content) = split_headers_content(b"A: b\r\n\r\nbody");
    assert_eq!(head, b"A: b");
    assert_eq!(content, b"body");
    let (head, content) = split_headers_content(b"A: b\n\nbody");
    assert_eq!((head, content), (&b"A: b"[..], &b"body"[..]));
    let (head, content) = split_headers_content(b"no blank line");
    assert_eq!((head, content), (&b"no blank line"[..], &b""[..]));
}

#[test]
fn byte_search_finds_the_first_match() {
    assert_eq!(find_bytes(b"abcabc", b"ca"), Some(2));
    assert_eq!(find_bytes_from(b"abcabc", b"bc", 2), Some(4));
    assert_eq!(find_bytes(b"abc", b""), None);
    assert_eq!(find_bytes(b"ab", b"abc"), None);
    assert_eq!(find_bytes_from(b"abc", b"c", 5), None);
}

#[test]
fn unquote_strips_white_space_and_quotes() {
    assert_eq!(unquote("  \"x y\" "), Some("x y".to_string()));
    assert_eq!(unquote("\""), Some("\"".to_string()));
    assert_eq!(unquote(" plain "), Some("plain".to_string()));
}

#[test]
fn json_strings_escape_specials() {
    assert_eq!(json_string("a\"b\\c\nd\te\r\u{1}"), "\"a\\\"b\\\\c\\nd\\te\\r\\u0001\"");
    assert_eq!(error_json("no"), "{\"error\":\"no\"}");
    assert_eq!(
        progress_json("done", "complete", 3, 4, "75", Some("x"), true),
        "{\"status\": \"done\", \"message\": \"complete\", \"current\": 3, \"total\": 4, \"pct\": 75, \"error\": \"x\", \"has_result\": true}"
    );
}

#[test]
fn url_decoding_and_queries() {
    assert_eq!(url_decode("a+b%20c%41"), Some("a b cA".to_string()));
    assert_eq!(url_decode("%zz"), None);
    assert_eq!(url_decode("%4"), Some("%4".to_string()));
    assert_eq!(url_decode("%ff"), None);
    assert_eq!(hex_val(b'f'), Some(15));
    assert_eq!(hex_val(b'G'), None);
    assert_eq!(query_value("x=1&job=ab%20c&job=2", "job"), Some("ab c".to_string()));
    assert_eq!(query_value("job", "job"), None);
    assert_eq!(query_value("k=%zz", "k"), Some("%zz".to_string()));
}

#[test]
fn upload_names_cannot_escape() {
    assert_eq!(safe_join("/ws", "a/b.mca"), Some("/ws/a/b.mca".to_string()));
    assert_eq!(safe_join("/ws/", " a "), Some("/ws/a".to_string()));
    assert_eq!(safe_join("/ws", "/etc/passwd"), None);
    assert_eq!(safe_join("/ws", "\\x"), None);
    assert_eq!(safe_join("/ws", "C:evil"), None);
    assert_eq!(safe_join("/ws", "a/ .. /b"), None);
    assert_eq!(safe_join("/ws", "a\\..\\b"), None);
    assert_eq!(safe_join("/ws", "  "), None);
    assert_eq!(safe_join("/ws", "a/..b"), Some("/ws/a/..b".to_string()));
}

#[test]
fn archive_entries_and_uploads() {
    assert_eq!(zip_entry_name("./././w\\region\\r.0.0.mca "), "w/region/r.0.0.mca");
    assert_eq!(zip_file_name("world.png"), "world.zip");
    assert_eq!(zip_file_name("the_nether.png"), "the_nether.zip");
    assert!(looks_like_zip(b"PK\x03\x04"));
    assert!(!looks_like_zip(b"P"));
    let zip = vec![FilePart { file_name: Some("W.ZIP".to_string()), data: vec![] }];
    assert!(matches!(upload_kind(&zip), Ok(UploadKind::Zip)));
    let single = vec![FilePart { file_name: Some("level.dat".to_string()), data: vec![1, 2] }];
    assert!(upload_kind(&single).is_err());
    assert!(upload_kind(&vec![]).is_err());
    let two = vec![
        FilePart { file_name: Some("a".to_string()), data: vec![] },
        FilePart { file_name: Some("b".to_string()), data: vec![] },
    ];
    assert!(matches!(upload_kind(&two), Ok(UploadKind::Files)));
}

#[test]
fn requests_route_by_method_and_path() {
    let (r, q) = route(HttpMethod::Get, "/progress?job=1");
    assert!(r == Route::Progress);
    assert_eq!(q, "job=1");
    assert!(route(HttpMethod::Post, "/upload").0 == Route::Upload);
    assert!(route(HttpMethod::Get, "/upload").0 == Route::NotFound);
    assert!(route(HttpMethod::Get, "/%72esult").0 == Route::Result);
    assert!(route(HttpMethod::Other, "/").0 == Route::NotFound);
    assert!(route(HttpMethod::Get, "/").0 == Route::Index);
}

#[test]
fn job_ids_are_ten_hex_digits() {
    assert_eq!(job_id(0, 0), "0000000000");
    assert_eq!(job_id(0x12, 0x1000000), "0000120012");
    assert!(index_html().starts_with("<!doctype html>"));
}

#[test]
fn finished_jobs_are_kept_for_the_retention_period() {
    let half_hour: u128 = 1800 * 1_000_000_000;
    assert!(!job_is_stale("done", Some(half_hour)));
    assert!(job_is_stale("done", Some(half_hour + 1)));
    assert!(job_is_stale("error", Some(half_hour + 1)));
    assert!(!job_is_stale("working", Some(half_hour * 2)));
    assert!(!job_is_stale("pending", None));
    assert!(!job_is_stale("done", None));
}

#[test]
fn sampling_modes_refuse_a_scale_like_the_command_line() {
    let body = build_multipart(&[("sampling", "supersample"), ("scale", "2")], "world.zip", b"PK");
    let parsed = parse_multipart(&body, Some(&content_type())).expect("multipart should parse");
    let err = build_config(&parsed.fields, "world".to_string(), "out".to_string()).err();
    assert_eq!(err.as_deref(), Some("supersampling cannot be combined with a scale other than 1"));

    let body = build_multipart(&[("sampling", "hs"), ("scale", "4")], "world.zip", b"PK");
    let parsed = parse_multipart(&body, Some(&content_type())).expect("multipart should parse");
    let err = build_config(&parsed.fields, "world".to_string(), "out".to_string()).err();
    assert_eq!(err.as_deref(), Some("hypersampling cannot be combined with a scale other than 1"));

    // The page sends a scale of 1 with every sampling mode.
    let config = config_for(&[("sampling", "supersample"), ("scale", "1"), ("ao", "on")]);
    assert!(config.supersample && config.ambient_occlusion);
    assert_eq!(config.scale, 1);
    // Both legacy flags together still report the combination first.
    let body = build_multipart(&[("supersample", "on"), ("hypersample", "on"), ("scale", "2")], "world.zip", b"PK");
    let parsed = parse_multipart(&body, Some(&content_type())).expect("multipart should parse");
    let err = build_config(&parsed.fields, "world".to_string(), "out".to_string()).err();
    assert_eq!(err.as_deref(), Some("Supersample and hypersampling cannot be combined"));
}

#[test]
fn header_parameters_are_found_in_any_case() {
    let h = b"Content-Disposition: form-data; NAME=x";
    assert_eq!(extract_header(h, "name").as_deref(), Some("x"));
    assert_eq!(extract_header(b"Content-Disposition: form-data; name=x", "name").as_deref(), Some("x"));
    assert_eq!(extract_header(b"Content-Disposition: form-data; Name=\"Mixed\"", "NAME").as_deref(), Some("\"Mixed\""));
    assert_eq!(extract_header(b"Content-Disposition: form-data; FileName=\"A.ZIP\"", "filename").as_deref(), Some("\"A.ZIP\""));
}
