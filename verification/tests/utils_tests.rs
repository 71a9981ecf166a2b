use ezshark::utils::{
    add_data_url_prefix, base64_encode, extract_domain, format_size, format_time_delta,
    is_local_host, is_local_request, next_idx, prev_idx, size_unit_index, to_ext_name, to_md_lang,
};

#[test]
fn test_md_lang() {
    assert_eq!(to_md_lang("application/json"), "json");
    assert_eq!(to_md_lang("application/xml"), "xml");
    assert_eq!(to_md_lang("application/octet-stream"), "octet-stream");
    assert_eq!(to_md_lang("application/javascript"), "javascript");
    assert_eq!(to_md_lang("text/x-rust"), "rust");
    assert_eq!(to_md_lang("text/css"), "css");
}

#[test]
fn md_lang_of_other_types_is_empty() {
    assert_eq!(to_md_lang("image/png"), "");
    assert_eq!(to_md_lang(""), "");
    assert_eq!(to_md_lang("application/x-sh"), "sh");
    assert_eq!(to_md_lang("text/"), "");
}

#[test]
fn ext_name_follows_the_table() {
    assert_eq!(to_ext_name("application/json"), ".json");
    assert_eq!(to_ext_name("text/html"), ".html");
    assert_eq!(to_ext_name("text/htm"), ".html");
    assert_eq!(to_ext_name("x-zip-compressed"), ".zip");
    assert_eq!(to_ext_name("audio/3gpp2"), ".3g2");
    assert_eq!(to_ext_name("text/whatever"), ".txt");
    assert_eq!(to_ext_name("application/whatever"), "");
    assert_eq!(to_ext_name(""), "");
}

#[test]
fn indices_go_round() {
    assert_eq!(next_idx(3, 0), 1);
    assert_eq!(next_idx(3, 2), 0);
    assert_eq!(next_idx(0, 0), 0);
    assert_eq!(next_idx(3, 7), 0);
    assert_eq!(prev_idx(3, 0), 2);
    assert_eq!(prev_idx(3, 2), 1);
    assert_eq!(prev_idx(0, 0), 0);
}

#[test]
fn local_hosts_are_recognised() {
    assert!(is_local_host("localhost"));
    assert!(is_local_host("LocalHost"));
    assert!(is_local_host("127.0.0.1"));
    assert!(is_local_host("127.8.9.10"));
    assert!(is_local_host("[::1]"));
    assert!(is_local_host("::1"));
    assert!(!is_local_host("128.0.0.1"));
    assert!(!is_local_host("127.0.0"));
    assert!(!is_local_host("127.0.0.256"));
    assert!(!is_local_host("127.00.0.1"));
    assert!(!is_local_host("example.test"));
    assert!(!is_local_host(""));
}

#[test]
fn local_requests_are_recognised() {
    assert!(is_local_request("http://127.0.0.1:1234/x"));
    assert!(is_local_request("http://localhost/"));
    assert!(is_local_request("https://[::1]:8443/a"));
    assert!(!is_local_request("http://example.test/"));
    assert!(!is_local_request("not a url"));
    assert!(!is_local_request("/relative"));
}

#[test]
fn domain_is_the_host_or_what_stands_in_its_place() {
    assert_eq!(extract_domain("https://example.test:8443/a?b"), "example.test");
    assert_eq!(extract_domain("example.test/path?x=1"), "example.test");
    assert_eq!(extract_domain("example.test?x=1"), "example.test");
    assert_eq!(extract_domain("//example.test/a"), "");
    assert_eq!(extract_domain(""), "");
}

#[test]
fn data_url_prefix_by_type() {
    assert_eq!(add_data_url_prefix("  iVBORw0KGgo  "), "data:image/png;base64,iVBORw0KGgo");
    assert_eq!(add_data_url_prefix("/9j/4AAQ"), "data:image/jpeg;base64,/9j/4AAQ");
    assert_eq!(add_data_url_prefix("R0lGODlh"), "data:image/gif;base64,R0lGODlh");
    assert_eq!(add_data_url_prefix("UklGRg"), "data:image/webp;base64,UklGRg");
    assert_eq!(add_data_url_prefix("Qk0="), "data:image/bmp;base64,Qk0=");
    assert_eq!(add_data_url_prefix("PD94bWw"), "data:image/svg+xml;base64,PD94bWw");
    assert_eq!(add_data_url_prefix("JVBERi0x"), "data:application/pdf;base64,JVBERi0x");
    assert_eq!(add_data_url_prefix("data:text/plain;base64,QQ=="), "data:text/plain;base64,QQ==");
    assert_eq!(add_data_url_prefix("\u{3000}QUJD\n"), "QUJD");
    assert_eq!(add_data_url_prefix("   "), "");
}

#[test]
fn base64_without_padding() {
    assert_eq!(base64_encode(b"hi"), "aGk");
    assert_eq!(base64_encode(b""), "");
    assert_eq!(base64_encode(&[0xff, 0xfe, 0xfd]), "//79");
}

#[test]
fn whole_sizes_are_shown_with_their_unit() {
    assert_eq!(format_size(None), Some(String::new()));
    assert_eq!(format_size(Some(0)), Some("0".to_string()));
    assert_eq!(format_size(Some(1)), Some("1b".to_string()));
    assert_eq!(format_size(Some(1023)), Some("1023b".to_string()));
    assert_eq!(format_size(Some(1024)), Some("1kb".to_string()));
    assert_eq!(format_size(Some(3 * 1024)), Some("3kb".to_string()));
    assert_eq!(format_size(Some(5 * 1024 * 1024)), Some("5mb".to_string()));
    assert_eq!(format_size(Some(7 * 1024 * 1024 * 1024)), Some("7gb".to_string()));
    assert_eq!(format_size(Some(1023 * 1024u64.pow(4))), Some("1023tb".to_string()));
}

#[test]
fn other_sizes_have_no_whole_text() {
    assert_eq!(format_size(Some(1025)), None);
    assert_eq!(format_size(Some(1536)), None);
    assert_eq!(format_size(Some(1024 * 1024 + 1)), None);
    assert_eq!(format_size(Some(1024u64.pow(5))), None);
    assert_eq!(format_size(Some(u64::MAX)), None);
}

#[test]
fn the_unit_of_a_size_counts_the_powers_of_1024() {
    assert_eq!(size_unit_index(0), 0);
    assert_eq!(size_unit_index(1023), 0);
    assert_eq!(size_unit_index(1024), 1);
    assert_eq!(size_unit_index(1024 * 1024 - 1), 1);
    assert_eq!(size_unit_index(1024 * 1024), 2);
    assert_eq!(size_unit_index(1024u64.pow(4)), 4);
    assert_eq!(size_unit_index(1024u64.pow(5) - 1), 4);
    assert_eq!(size_unit_index(1024u64.pow(5)), 5);
    assert_eq!(size_unit_index(u64::MAX), 5);
}

#[test]
fn spans_of_time_are_shown_in_whole_units() {
    assert_eq!(format_time_delta(None), Some(String::new()));
    assert_eq!(format_time_delta(Some(0)), Some("0".to_string()));
    assert_eq!(format_time_delta(Some(1)), Some("1ms".to_string()));
    assert_eq!(format_time_delta(Some(999)), Some("999ms".to_string()));
    assert_eq!(format_time_delta(Some(1000)), Some("1s".to_string()));
    assert_eq!(format_time_delta(Some(10000)), Some("10s".to_string()));
    assert_eq!(format_time_delta(Some(59_999)), Some("59s".to_string()));
    assert_eq!(format_time_delta(Some(60_000)), Some("1min".to_string()));
    assert_eq!(format_time_delta(Some(3_599_999)), Some("59min".to_string()));
    assert_eq!(format_time_delta(Some(3_600_000)), Some("1h".to_string()));
    assert_eq!(format_time_delta(Some(90_000_000)), Some("25h".to_string()));
}

#[test]
fn between_one_and_ten_seconds_there_is_no_whole_text() {
    assert_eq!(format_time_delta(Some(1001)), None);
    assert_eq!(format_time_delta(Some(5000)), None);
    assert_eq!(format_time_delta(Some(9999)), None);
}
