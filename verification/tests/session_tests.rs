use partdl::merge::merge_segments;
use partdl::plan::plan;
use partdl::session::{Downloader, RunDecision};
use partdl::text::{
    clamp_connections, metadata_file_name, parse_connections, parse_decimal, part_file_name,
    path_file_name, resolve_filename, usize_to_string,
};

fn session() -> Downloader {
    Downloader::new(String::from("http://host/files/a.bin"), 4)
}

#[test]
fn new_clamps_connection_count() {
    assert_eq!(Downloader::new(String::from("u"), 99).max_conns, 8);
    assert_eq!(Downloader::new(String::from("u"), 0).max_conns, 1);
    assert_eq!(Downloader::new(String::from("u"), 5).max_conns, 5);
}

#[test]
fn probe_with_length_header() {
    let mut d = session();
    let length = d.apply_probe(String::from("/files/a.bin"), Some(String::from("1001")));
    assert_eq!(length, 1001);
    assert_eq!(d.filename, "a.bin");
    assert!(d.is_downloadable(&length));
}

#[test]
fn probe_without_length_header_is_not_downloadable() {
    let mut d = session();
    let length = d.apply_probe(String::from("/files/a.bin"), None);
    assert_eq!(length, 0);
    assert!(!d.is_downloadable(&length));
    // The run stops here: no segment directory, no files.
    assert_eq!(d.decide_run(length, None), RunDecision::AbortNoLength);
}

#[test]
fn probe_with_malformed_header_counts_as_no_length() {
    let mut d = session();
    assert_eq!(d.apply_probe(String::from("/files/a.bin"), Some(String::from("12x"))), 0);
    assert_eq!(d.apply_probe(String::from("/files/a.bin"), Some(String::from(""))), 0);
}

#[test]
fn probe_falls_back_to_request_url_name() {
    let mut d = session();
    let length = d.apply_probe(String::from("/"), Some(String::from("10")));
    assert_eq!(length, 10);
    assert_eq!(d.filename, "a.bin");
}

#[test]
fn probe_with_no_derivable_name_aborts() {
    let mut d = Downloader::new(String::from("http://host/"), 4);
    let length = d.apply_probe(String::from("/"), Some(String::from("10")));
    assert_eq!(length, 0);
    assert_eq!(d.filename, "");
}

#[test]
fn existing_complete_output_short_circuits() {
    let d = session();
    assert_eq!(d.decide_run(1000, Some(1000)), RunDecision::AlreadyComplete);
    assert_eq!(d.decide_run(1000, Some(400)), RunDecision::Proceed);
    assert_eq!(d.decide_run(1000, None), RunDecision::Proceed);
}

#[test]
fn second_run_after_full_download_does_no_work() {
    // First run: plan, fetch every segment in full, merge.
    let length: usize = 1001;
    let target: Vec<u8> = (0..length).map(|i| ((i * 13 + 5) % 256) as u8).collect();
    let d = session();
    let parts = d.get_parts(length);
    let segments: Vec<Vec<u8>> =
        parts.iter().map(|p| target[p.offset..p.offset + p.size].to_vec()).collect();
    let output = merge_segments(&segments);
    assert_eq!(output, target);
    // Second run: the probe finds the same length, and the output file
    // already has exactly that many bytes, so no fetch is planned.
    assert_eq!(
        d.decide_run(length, Some(output.len() as u64)),
        RunDecision::AlreadyComplete
    );
}

#[test]
fn connection_count_input_is_clamped() {
    assert_eq!(parse_connections("12"), Some(8));
    assert_eq!(parse_connections("8"), Some(8));
    assert_eq!(parse_connections("3"), Some(3));
    assert_eq!(parse_connections("0"), Some(1));
}

#[test]
fn invalid_connection_count_aborts() {
    assert_eq!(parse_connections("abc"), None);
    assert_eq!(parse_connections(""), None);
    assert_eq!(parse_connections("4x"), None);
    assert_eq!(parse_connections("99999999999999999999"), None);
}

#[test]
fn clamp_bounds() {
    assert_eq!(clamp_connections(-3), 1);
    assert_eq!(clamp_connections(1), 1);
    assert_eq!(clamp_connections(8), 8);
    assert_eq!(clamp_connections(9), 8);
}

#[test]
fn decimal_parsing() {
    assert_eq!(parse_decimal("0"), Some(0));
    assert_eq!(parse_decimal("1001"), Some(1001));
    assert_eq!(parse_decimal("18446744073709551615"), Some(u64::MAX));
    assert_eq!(parse_decimal("18446744073709551616"), None);
    assert_eq!(parse_decimal("-1"), None);
    assert_eq!(parse_decimal("1 "), None);
}

#[test]
fn decimal_rendering() {
    assert_eq!(usize_to_string(0), "0");
    assert_eq!(usize_to_string(7), "7");
    assert_eq!(usize_to_string(1000), "1000");
    assert_eq!(usize_to_string(usize::MAX), usize::MAX.to_string());
}

#[test]
fn file_name_resolution() {
    assert_eq!(path_file_name("/x/y.tar.gz"), Some(String::from("y.tar.gz")));
    assert_eq!(path_file_name("plain"), Some(String::from("plain")));
    assert_eq!(path_file_name("/x/"), None);
    assert_eq!(path_file_name(""), None);
    assert_eq!(
        resolve_filename("/", "http://h/a.bin"),
        Some(String::from("a.bin"))
    );
    assert_eq!(resolve_filename("/", "http://h/"), None);
}

#[test]
fn on_disk_names() {
    assert_eq!(part_file_name("a.bin", 3), "parts/a.bin.part-3");
    assert_eq!(part_file_name("a.bin", 10), "parts/a.bin.part-10");
    assert_eq!(metadata_file_name("a.bin"), "parts/a.bin.metadata");
}

#[test]
fn get_filename_prefers_response_path() {
    let d = session();
    assert_eq!(
        d.get_filename(String::from("/dl/b.iso")),
        Some(String::from("b.iso"))
    );
    assert_eq!(d.get_filename(String::from("/")), Some(String::from("a.bin")));
    let bare = Downloader::new(String::from("http://host/"), 2);
    assert_eq!(bare.get_filename(String::from("/")), None);
}
