use proxy_gen::collect::collect_records;
use proxy_gen::config::build_config;
use proxy_gen::paths::{has_extension, path_with_yaml_extension, strip_extension};
use proxy_gen::pipeline::generate_config_text;
use proxy_gen::ptype::ProxyType;
use proxy_gen::record::SkipReason;
use proxy_gen::yaml::render_config;

fn lines(xs: &[&str]) -> Vec<String> {
    xs.iter().map(|s| s.to_string()).collect()
}

#[test]
fn duplicates_collapse_to_one_record() {
    let src = lines(&["10.0.0.1:1080", "10.0.0.1:1080", "10.0.0.1:1080"]);
    let (recs, diags) = collect_records(&src, ProxyType::Socks5);
    assert_eq!(recs.len(), 1);
    assert_eq!(recs[0].name, "10.0.0.1 - 1080");
    assert!(diags.is_empty());
}

#[test]
fn structurally_equal_lines_collapse() {
    // the explicit token equals the default, so both lines parse to the
    // same record even though their text differs
    let src = lines(&["10.0.0.1:1080", "10.0.0.1:1080:socks5"]);
    let (recs, _) = collect_records(&src, ProxyType::Socks5);
    assert_eq!(recs.len(), 1);
}

#[test]
fn differing_port_text_makes_distinct_records() {
    // same parsed port, but the raw text (and so the name) differs
    let src = lines(&["10.0.0.1:80", "10.0.0.1:080"]);
    let (recs, _) = collect_records(&src, ProxyType::Socks5);
    assert_eq!(recs.len(), 2);
}

#[test]
fn two_distinct_records_with_default_and_explicit_types() {
    let src = lines(&["10.0.0.1:1080", "10.0.0.1:1080", "10.0.0.2:8080:http"]);
    let (recs, diags) = collect_records(&src, ProxyType::Socks5);
    assert_eq!(recs.len(), 2);
    assert_eq!(recs[0].name, "10.0.0.1 - 1080");
    assert_eq!(recs[0].ptype, ProxyType::Socks5);
    assert_eq!(recs[1].name, "10.0.0.2 - 8080");
    assert_eq!(recs[1].ptype, ProxyType::Http);
    assert!(diags.is_empty());
}

#[test]
fn skipped_lines_do_not_stop_the_run() {
    let src = lines(&["nocolons", "999.999.999.999:80", "10.0.0.1:80"]);
    let (recs, diags) = collect_records(&src, ProxyType::Socks5);
    assert_eq!(recs.len(), 1);
    assert_eq!(recs[0].name, "10.0.0.1 - 80");
    assert_eq!(diags.len(), 2);
    assert_eq!(diags[0].line_no, 1);
    assert_eq!(diags[0].reason, SkipReason::TooFewFields);
    assert_eq!(diags[1].line_no, 2);
    assert_eq!(diags[1].reason, SkipReason::BadAddress);
}

#[test]
fn empty_input_still_yields_a_complete_document() {
    let src: Vec<String> = Vec::new();
    let (text, diags) = generate_config_text(&src, ProxyType::Socks5, "out");
    assert!(diags.is_empty());
    assert_eq!(
        text,
        "proxies: []\n\
         proxy-groups:\n  - name: \"out\"\n    type: select\n    proxies: []\n\
         rules:\n  - \"MATCH,DIRECT\"\n"
    );
}

#[test]
fn one_record_document_is_rendered_exactly() {
    let src = lines(&["10.0.0.1:1080"]);
    let (text, _) = generate_config_text(&src, ProxyType::Socks5, "proxies/list.txt");
    assert_eq!(
        text,
        "proxies:\n\
         \x20 - name: \"10.0.0.1 - 1080\"\n\
         \x20   server: 10.0.0.1\n\
         \x20   port: 1080\n\
         \x20   type: socks5\n\
         proxy-groups:\n\
         \x20 - name: \"proxies/list\"\n\
         \x20   type: select\n\
         \x20   proxies:\n\
         \x20     - \"10.0.0.1 - 1080\"\n\
         rules:\n\
         \x20 - \"MATCH,DIRECT\"\n"
    );
}

#[test]
fn group_name_is_escaped_in_the_document() {
    let (recs, _) = collect_records(&Vec::new(), ProxyType::Socks5);
    let config = build_config(recs, "a\"b\\c");
    let text = render_config(&config);
    assert!(text.contains("  - name: \"a\\\"b\\\\c\"\n"));
}

#[test]
fn rerunning_on_the_same_input_gives_identical_text() {
    let src = lines(&["10.0.0.2:8080:http", "10.0.0.1:1080", "10.0.0.1:1080", "bad line"]);
    let (first, _) = generate_config_text(&src, ProxyType::Socks5, "proxies/list");
    let (second, _) = generate_config_text(&src, ProxyType::Socks5, "proxies/list");
    assert_eq!(first, second);
}

#[test]
fn extension_heuristic_for_directory_entries() {
    assert!(!has_extension("listing"));
    assert!(has_extension("listing.bak"));
    assert!(!has_extension(".bashrc"));
    assert!(!has_extension("dir.d/listing"));
    assert!(has_extension("dir/file.txt"));
    assert!(has_extension("a."));
}

#[test]
fn output_path_gets_the_yaml_extension() {
    assert_eq!(path_with_yaml_extension("proxies/2024-05-01"), "proxies/2024-05-01.yaml");
    assert_eq!(path_with_yaml_extension("list.txt"), "list.yaml");
    assert_eq!(strip_extension("proxies/list.txt"), "proxies/list");
    assert_eq!(strip_extension("proxies/list"), "proxies/list");
}
