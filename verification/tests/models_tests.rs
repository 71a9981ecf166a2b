use ezshark::cert::{cache_key, CertificateAuthority, Leaf};
use ezshark::commands::{
    debugger_command, export_content_type, export_format, handle_debugger_command,
    on_resend_traffic, overview_of, traffic_detail, DebuggerCommand,
};
use ezshark::frontend_message::{NewTrafficHeadData, Status};
use ezshark::import::{import_entry, req_body_of, res_body_of, traffic_from_har, HarEntry};
use ezshark::logs::{is_old_log, log_file_name};
use ezshark::models::charles::{
    is_charles_process, kill_outcome, CharlesConvertError, CharlesConverter,
};
use ezshark::models::external_proxy::StringOrNumber;
use ezshark::models::{CryptoService, DecryptError};
use ezshark::preview::{bytes_to_hex, hex_list};
use ezshark::proxy_server::ProxyServer;
use ezshark::search::{
    ez_search, search_record, search_traffic, text_matches_all, SearchPosition, SearchQuery,
    SearchRecord,
};
use ezshark::server::{HttpMethod, NewPauseTrafficData, PrintMode, TrafficData};
use ezshark::state::{State, TrafficModification};
use ezshark::text::{contains, decimal_string, starts_with, str_eq};
use ezshark::traffic::{Body, Header, Headers, Traffic, TransactionState};
use ezshark::utils::{
    ellipsis_head, ellipsis_tail, try_ellipsis_head, try_ellipsis_tail,
};
use std::sync::Arc;

const KEY: &str = "0123456789abcdef0123456789abcdef";
const IV: &str = "fedcba9876543210";

#[test]
fn a_key_and_a_vector_of_the_right_length() {
    assert!(CryptoService::new(KEY, IV).is_ok());
    match CryptoService::new("short", IV) {
        Err(DecryptError::InvalidInput(m)) => {
            assert_eq!(m, "SECRET_KEY must be 32 characters long")
        }
        _ => panic!(),
    }
    match CryptoService::new(KEY, "short") {
        Err(DecryptError::InvalidInput(m)) => assert_eq!(m, "IV must be 16 characters long"),
        _ => panic!(),
    }
    match CryptoService::new("short", "short") {
        Err(DecryptError::InvalidInput(m)) => {
            assert_eq!(m, "SECRET_KEY must be 32 characters long")
        }
        _ => panic!(),
    }
    // the length counts bytes
    assert!(CryptoService::new("0123456789abcdef0123456789abcd\u{e9}", IV).is_ok());
}

#[test]
fn decrypting_a_password() {
    let service = CryptoService::new(KEY, IV).unwrap();
    assert_eq!(service.decrypt("Agcyiky1Hq9ku0Y8VmSiSg==").unwrap(), "hunter2");
    match service.decrypt("") {
        Err(DecryptError::InvalidInput(m)) => assert_eq!(m, "Encrypted text cannot be empty"),
        _ => panic!(),
    }
    assert!(matches!(service.decrypt("not base64!"), Err(DecryptError::Base64DecodeError)));
    // base64, but no whole cipher block
    assert!(matches!(service.decrypt("QUJD"), Err(DecryptError::DecryptionError(_))));
    // a block that decrypts to bytes that are no text
    assert!(matches!(service.decrypt("FmGkiEulkJj5iMrObxvjuA=="), Err(DecryptError::Utf8Error)));
    // another key gives no padding, or other bytes
    let other = CryptoService::new("fedcba9876543210fedcba9876543210", IV).unwrap();
    assert!(other.decrypt("Agcyiky1Hq9ku0Y8VmSiSg==").map(|t| t != "hunter2").unwrap_or(true));
    assert_eq!(DecryptError::Base64DecodeError.message(), "Failed to decode base64");
    assert_eq!(DecryptError::Utf8Error.message(), "UTF-8 conversion failed");
    assert_eq!(
        DecryptError::InvalidInput("x".to_string()).message(),
        "Invalid input: x"
    );
    assert_eq!(
        DecryptError::DecryptionError("y".to_string()).message(),
        "Decryption failed: y"
    );
}

#[test]
fn settings_that_are_texts_or_numbers() {
    assert_eq!(StringOrNumber::String("8080".to_string()).into_text(), "8080");
    assert_eq!(StringOrNumber::Number(8080).into_text(), "8080");
    assert_eq!(StringOrNumber::Number(0).into_text(), "0");
    assert_eq!(StringOrNumber::Number(-15).into_text(), "-15");
    assert_eq!(StringOrNumber::Number(i64::MIN).into_text(), i64::MIN.to_string());
    assert_eq!(StringOrNumber::Number(i64::MAX).into_text(), i64::MAX.to_string());
    assert_eq!(decimal_string(u64::MAX), u64::MAX.to_string());
    assert_eq!(decimal_string(10), "10");
}

#[test]
fn the_charles_converter() {
    let c = CharlesConverter::new("/opt/charles", true).unwrap();
    assert_eq!(c.charles_path, "/opt/charles");
    match CharlesConverter::new("/opt/charles", false) {
        Err(CharlesConvertError::FileNotFound(p)) => assert_eq!(p, "/opt/charles"),
        _ => panic!(),
    }
    assert_eq!(
        CharlesConverter::conversion_result(true, "out.har".to_string(), "".to_string()).unwrap(),
        "out.har"
    );
    match CharlesConverter::conversion_result(false, "out.har".to_string(), "bad".to_string()) {
        Err(CharlesConvertError::ConversionFailed(m)) => assert_eq!(m, "bad"),
        _ => panic!(),
    }
    assert_eq!(
        CharlesConvertError::FileNotFound("/a \"b\"".to_string()).message(),
        "文件未找到: \"/a \\\"b\\\"\""
    );
    assert_eq!(CharlesConvertError::ConversionFailed("x".to_string()).message(), "转换失败: x");
    assert_eq!(CharlesConvertError::IOError("x".to_string()).message(), "IO 错误: x");
    assert!(is_charles_process("Charles"));
    assert!(is_charles_process("charles.exe"));
    assert!(is_charles_process("/usr/bin/CHARLES-proxy"));
    assert!(!is_charles_process("charle"));
    assert!(!is_charles_process(""));
    assert_eq!(kill_outcome(true, false, "denied".to_string()).unwrap_err(), "denied");
    assert_eq!(kill_outcome(true, true, "denied".to_string()).unwrap(), true);
    assert_eq!(kill_outcome(false, false, "".to_string()).unwrap(), false);
}

#[test]
fn texts_are_cut_with_an_ellipsis() {
    assert_eq!(ellipsis_tail("hello world", 6), "hello…");
    assert_eq!(ellipsis_tail("hello", 5), "hello");
    assert_eq!(ellipsis_tail("", 0), "");
    assert_eq!(ellipsis_tail("ab", 1), "…");
    assert_eq!(ellipsis_head("hello world", 6), "…world");
    assert_eq!(ellipsis_head("hello", 5), "hello");
    assert_eq!(ellipsis_head("", 0), "");
    assert_eq!(try_ellipsis_tail("hello world", 6).unwrap(), "hello…");
    assert_eq!(try_ellipsis_tail("hello", 9).unwrap(), "hello");
    assert!(try_ellipsis_tail("hello", 0).is_none());
    // wide characters: two columns and three bytes each
    assert_eq!(try_ellipsis_tail("日本語", 6).unwrap(), "日本語");
    assert!(try_ellipsis_tail("日本語", 5).is_none());
    assert_eq!(try_ellipsis_tail("日本語", 4).unwrap(), "日…");
    assert_eq!(try_ellipsis_head("hello world", 6).unwrap(), "…world");
    assert_eq!(try_ellipsis_head("日本語", 4).unwrap(), "…本語");
    assert!(try_ellipsis_head("日本語", 5).is_none());
    assert!(try_ellipsis_head("日本語", 0).is_none());
    assert!(try_ellipsis_head("ab", 0).is_none());
    assert_eq!(try_ellipsis_head("ab", 1).unwrap(), "…");
    assert_eq!(try_ellipsis_head("abc", 2).unwrap(), "…c");
}

#[test]
fn hex_previews() {
    assert_eq!(bytes_to_hex(b"hi"), "6869");
    assert_eq!(bytes_to_hex(&[0x00, 0x0f, 0xa0, 0xff]), "000fa0ff");
    assert_eq!(bytes_to_hex(&[]), "");
    assert_eq!(hex_list(&[0x00, 0x0f, 0xa0]), "[00, 0F, A0]");
    assert_eq!(hex_list(&[0x41]), "[41]");
}

#[test]
fn text_helpers() {
    assert!(contains("hello", "ell"));
    assert!(contains("hello", ""));
    assert!(contains("", ""));
    assert!(!contains("", "a"));
    assert!(!contains("hello", "elx"));
    assert!(contains("héllo wörld", "wör"));
    assert!(starts_with("hello", "he"));
    assert!(!starts_with("hello", "el"));
    assert!(starts_with("hello", ""));
    assert!(str_eq("a", "a"));
    assert!(!str_eq("a", "ab"));
}

fn query(text: &str, all: bool) -> SearchQuery {
    SearchQuery {
        text: text.to_string(),
        position: SearchPosition {
            request_url: all,
            request_header: all,
            response_header: all,
            request_body: all,
            response_body: all,
        },
    }
}

fn record(id: u64, session: &str, uri: &str) -> SearchRecord {
    let mut t = Traffic::new(uri, "GET", 1);
    t.session_id = session.to_string();
    t.gid = id;
    SearchRecord {
        id,
        traffic: Arc::new(t),
        req_headers_json: Some("{\"Accept\":\"text/html\"}".to_string()),
        res_headers_json: None,
        req_body: None,
        res_body: Some("an html body, HTML".to_string()),
    }
}

#[test]
fn matches_are_found_without_regard_to_case_and_without_overlap() {
    assert_eq!(text_matches_all("abcABCabc", "bc"), vec![1, 4, 7]);
    assert_eq!(text_matches_all("aaaa", "aa"), vec![0, 2]);
    assert_eq!(text_matches_all("aaaaa", "AA"), vec![0, 2]);
    assert_eq!(text_matches_all("abc", ""), Vec::<usize>::new());
    assert_eq!(text_matches_all("", "a"), Vec::<usize>::new());
    assert_eq!(text_matches_all("ab", "abc"), Vec::<usize>::new());
    // offsets count bytes
    assert_eq!(text_matches_all("é日x é", "é"), vec![0, 7]);
    assert_eq!(text_matches_all("日本語x", "X"), vec![9]);
}

#[test]
fn a_search_over_a_session() {
    let records = vec![
        record(0, "s1", "http://h/html"),
        record(1, "s2", "http://h/html"),
        record(2, "s1", "http://h/other"),
        record(3, "s1", "http://h/none"),
    ];
    let found = search_traffic(&query("HTML", true), "s1", &records);
    assert_eq!(found.len(), 3);
    assert_eq!(found[0].id, 0);
    assert_eq!(found[0].url, "http://h/html");
    let places: Vec<&str> = found[0].search_item.iter().map(|i| i.position.as_str()).collect();
    assert_eq!(places, vec!["Request URL", "Request Header", "Response Body"]);
    assert_eq!(found[0].search_item[0].keyword_byte_index, vec![9]);
    assert_eq!(found[0].search_item[0].content, "http://h/html");
    assert_eq!(found[0].search_item[1].keyword_byte_index, vec![16]);
    assert_eq!(found[0].search_item[2].keyword_byte_index, vec![3, 14]);
    assert_eq!(found[1].id, 2);
    assert_eq!(found[1].search_item.len(), 2);
    assert!(search_traffic(&query("html", true), "  ", &records).is_empty());
    assert!(search_traffic(&query("", true), "s1", &records).is_empty());
    assert!(search_traffic(&query("html", false), "s1", &records).is_empty());
    assert!(search_traffic(&query("nothing like it", true), "s1", &records).is_empty());
    assert!(search_record(&query("html", true), &records[1], "s1").is_none());
    assert!(search_record(&query("html", true), &records[1], "s2").is_some());
}

#[test]
fn the_quick_search_looks_at_uris() {
    let mut s = State::new(PrintMode::Nothing);
    for uri in ["http://h/Login", "http://h/logout", "http://h/x"] {
        s.add_traffic(Traffic::new(uri, "GET", 1), "s1").unwrap();
    }
    s.add_traffic(Traffic::new("http://h/login", "GET", 1), "s2").unwrap();
    let mut ids = s.ez_search_traffic("LOG", "s1");
    ids.sort();
    assert_eq!(ids, vec!["0", "1"]);
    assert_eq!(s.ez_search_traffic("log", "s2"), vec!["3"]);
    assert!(s.ez_search_traffic("log", " ").is_empty());
    let mut mine: Vec<(u64, String)> =
        s.list_session_heads("s1").iter().map(|h| (h.id, h.session_id.clone())).collect();
    mine.sort();
    assert_eq!(
        mine,
        vec![(0, "s1".to_string()), (1, "s1".to_string()), (2, "s1".to_string())]
    );
    assert_eq!(s.list_session_heads("s2").len(), 1);
    assert!(s.list_session_heads("s3").is_empty());
    assert!(s.ez_search_traffic("nothing", "s1").is_empty());
    let items = vec![(7u64, Arc::new({
        let mut t = Traffic::new("http://h/A", "GET", 1);
        t.session_id = "s".to_string();
        t
    }))];
    assert_eq!(ez_search(&items, "a", "s"), vec!["7"]);
}

fn entry() -> HarEntry {
    HarEntry {
        method: Some("POST".to_string()),
        url: Some("http://h/form?x=1".to_string()),
        http_version: Some("HTTP/1.1".to_string()),
        req_headers: Some(vec![("content-type".to_string(), "text/plain".to_string())]),
        res_headers: None,
        post_text: None,
        post_params: Some(vec![
            ("a".to_string(), "1".to_string()),
            ("b".to_string(), "".to_string()),
            ("c".to_string(), "3".to_string()),
        ]),
        res_text: Some("aGk=".to_string()),
        res_encoding: Some("base64".to_string()),
        status: Some(200),
        res_size: Some(2),
        started: Some(1000),
        time_ms: Some(250),
    }
}

#[test]
fn an_entry_of_a_har_file_becomes_a_completed_record() {
    let e = entry();
    assert_eq!(req_body_of(&e).unwrap(), "a=1&b=&c=3");
    assert_eq!(res_body_of(&e).unwrap(), "hi");
    let t = traffic_from_har(&e, 4, "s1", Some("d/00004-req.txt"), None);
    assert_eq!(t.gid, 4);
    assert_eq!(t.session_id, "s1");
    assert_eq!(t.uri, "http://h/form?x=1");
    assert_eq!(t.method, "POST");
    assert_eq!(t.transaction_state, TransactionState::Completed);
    assert_eq!(t.status, Some(200));
    assert_eq!(t.res_body_size, Some(2));
    assert_eq!(t.start_time, Some(1000));
    assert_eq!(t.end_time, Some(1250));
    assert_eq!(t.req_body_hex.as_deref(), Some("613d3126623d26633d33"));
    assert_eq!(t.res_body_hex.as_deref(), Some("6869"));
    assert_eq!(t.req_body_file.as_deref(), Some("d/00004-req.txt"));
    assert!(t.res_body_file.is_none());
    assert_eq!(t.req_headers.as_ref().unwrap().items[0].value, "text/plain");
    assert!(t.res_headers.is_none());
    assert!(t.valid);
    assert!(t.error.is_none());
}

#[test]
fn an_entry_of_a_har_file_with_gaps() {
    let mut e = entry();
    e.method = None;
    e.url = None;
    e.post_text = Some("text wins".to_string());
    e.res_encoding = None;
    e.status = Some(65536 + 404);
    e.started = None;
    let t = traffic_from_har(&e, 0, "", None, None);
    assert_eq!(t.uri, "");
    assert_eq!(t.method, "");
    assert_eq!(t.status, Some(404));
    assert_eq!(t.end_time, None);
    assert_eq!(req_body_of(&e).unwrap(), "text wins");
    assert_eq!(res_body_of(&e).unwrap(), "aGk=");
    e.res_encoding = Some("base64".to_string());
    e.res_text = Some("//79".to_string());
    assert!(res_body_of(&e).is_none());
    e.res_text = Some("not base64!".to_string());
    assert!(res_body_of(&e).is_none());
    e.res_text = None;
    assert!(res_body_of(&e).is_none());
    e.post_text = None;
    e.post_params = None;
    assert!(req_body_of(&e).is_none());
    e.post_params = Some(vec![]);
    assert_eq!(req_body_of(&e).unwrap(), "");
    e.started = Some(i64::MAX - 1);
    e.time_ms = Some(5);
    assert_eq!(traffic_from_har(&e, 0, "", None, None).end_time, Some(i64::MAX));
    e.started = Some(-5);
    e.time_ms = None;
    assert_eq!(traffic_from_har(&e, 0, "", None, None).end_time, Some(-5));
}

#[test]
fn imported_records_get_fresh_gids() {
    let mut s = State::new(PrintMode::Nothing);
    s.add_traffic(Traffic::new("http://h/0", "GET", 1), "s1").unwrap();
    let mut t = traffic_from_har(&entry(), 0, "old", None, None);
    t.valid = false;
    let head = s.import_traffic(t, "s1").unwrap();
    assert_eq!(head.id, 1);
    assert_eq!(head.session_id, "s1");
    assert_eq!(head.transaction_state, TransactionState::Completed);
    let kept = s.get_traffic(1).unwrap();
    assert!(kept.valid);
    assert_eq!(kept.gid, 1);
    assert_eq!(kept.session_id, "s1");
}

fn modification(id: &str) -> TrafficModification {
    TrafficModification {
        id: id.to_string(),
        modified_type: "request".to_string(),
        url: None,
        method: None,
        modified_headers: None,
        modified_body: None,
    }
}

#[test]
fn debugger_commands() {
    let mut ps = ProxyServer::new();
    let go = DebuggerCommand::Continue { id: "a".to_string() };
    assert_eq!(handle_debugger_command(&mut ps, &go).unwrap_err(), "Not found state");
    ps.start_new_server(true, "d".to_string()).unwrap();
    assert_eq!(handle_debugger_command(&mut ps, &go).unwrap_err(), "Traffic not found");
    ps.server.as_mut().unwrap().state.pause_with_id("a", Traffic::new("http://h/x", "GET", 1), None);
    let mut m = modification("a");
    m.url = Some("http://h/y".to_string());
    let change = DebuggerCommand::ModifyTraffic(m);
    assert_eq!(handle_debugger_command(&mut ps, &change).unwrap(), "Success");
    assert_eq!(handle_debugger_command(&mut ps, &go).unwrap(), "Success");
    assert_eq!(handle_debugger_command(&mut ps, &change).unwrap_err(), "Traffic not found");
    let state = &mut ps.server.as_mut().unwrap().state;
    assert_eq!(state.paused_traffic.entries[0].traffic.uri, "http://h/y");
    assert_eq!(debugger_command(state, &go).unwrap(), "Success");
    let other = DebuggerCommand::ModifyTraffic(modification("b"));
    assert_eq!(debugger_command(state, &other).unwrap_err(), "Traffic not found");
}

#[test]
fn exports_by_extension() {
    assert_eq!(export_format(Some("md")), "markdown");
    assert_eq!(export_format(Some("har")), "har");
    assert_eq!(export_format(Some("sh")), "curl");
    assert_eq!(export_format(Some("json")), "json");
    assert_eq!(export_format(Some("txt")), "txt");
    assert_eq!(export_format(Some("MD")), "txt");
    assert_eq!(export_format(None), "txt");
    assert_eq!(export_content_type("markdown").unwrap(), "text/markdown; charset=UTF-8");
    assert_eq!(export_content_type("har").unwrap(), "application/json; charset=UTF-8");
    assert_eq!(export_content_type("json").unwrap(), "application/json; charset=UTF-8");
    assert_eq!(export_content_type("").unwrap(), "application/json; charset=UTF-8");
    assert_eq!(export_content_type("curl").unwrap(), "text/plain; charset=UTF-8");
    assert_eq!(export_content_type("txt").unwrap_err(), "Unsupported format: txt");
}

#[test]
fn a_request_is_sent_again_through_the_engine() {
    let mut m = modification("x");
    assert_eq!(on_resend_traffic(&m, 8888).unwrap_err(), "URL is required");
    m.url = Some("http://h/x".to_string());
    assert_eq!(on_resend_traffic(&m, 8888).unwrap_err(), "Method is required");
    m.method = Some("brew".to_string());
    assert_eq!(on_resend_traffic(&m, 8888).unwrap_err(), "Invalid method");
    m.method = Some("Post".to_string());
    let r = on_resend_traffic(&m, 8888).unwrap();
    assert_eq!(r.url, "http://h/x");
    assert_eq!(r.method, HttpMethod::Post);
    assert!(r.headers.is_empty());
    assert!(r.body.is_empty());
    assert_eq!(r.proxy_uri, "http://127.0.0.1:8888");
    m.modified_headers = Some(vec![("a".to_string(), "1".to_string())]);
    m.modified_body = Some("héllo".to_string());
    let r = on_resend_traffic(&m, 1024).unwrap();
    assert_eq!(
        r.headers,
        vec![("a".to_string(), "1".to_string()), ("content-length".to_string(), "6".to_string())]
    );
    assert_eq!(r.body, "héllo".as_bytes().to_vec());
    assert_eq!(r.proxy_uri, "http://127.0.0.1:1024");
}

#[test]
fn a_transaction_is_prepared_for_resending() {
    let mut s = State::new(PrintMode::Nothing);
    s.add_traffic(Traffic::new("http://h/0", "GET", 1), "s1").unwrap();
    let (id, data) = s.resend_traffic(0, Some(Body::bytes(b"abc"))).unwrap();
    assert_eq!(id.len(), 36);
    assert_eq!(data.traffic_type, "resend");
    assert_eq!(data.traffic.uri, "http://h/0");
    assert_eq!(data.body.unwrap().value, "abc");
    assert_eq!(s.resend_traffic(5, None).unwrap_err(), "Traffic with id 5 not found");
    let (other, _) = s.resend_traffic(0, None).unwrap();
    assert_ne!(id, other);
}

#[test]
fn the_detail_view() {
    let mut t = Traffic::new("http://h/0", "GET", 1);
    t.set_req_body_hex("6869".to_string());
    t.set_response_head(
        204,
        "HTTP/2.0",
        Headers { items: vec![Header { name: "a".to_string(), value: "b".to_string() }] },
        9,
    );
    let o = overview_of(&t);
    assert_eq!(o.url, "http://h/0");
    assert_eq!(o.method, "GET");
    assert_eq!(o.status, TransactionState::Responding);
    assert_eq!(o.code, Some(204));
    assert_eq!(o.protocol.as_deref(), Some("HTTP/2.0"));
    assert_eq!(o.start_time, Some(1));
    assert_eq!(o.end_time, Some(9));
    let d = traffic_detail(&t, Some("{}".to_string()), None, Some(Body::bytes(b"hi")), None);
    assert_eq!(d.overview.code, Some(204));
    assert_eq!(d.req_head_json.as_deref(), Some("{}"));
    assert!(d.res_head_json.is_none());
    assert_eq!(d.req_body_hex.as_deref(), Some("6869"));
    assert!(d.res_body_hex.is_none());
    assert_eq!(d.req_body.unwrap().value, "hi");
    assert!(d.res_body.is_none());
}

#[test]
fn events_for_the_interface() {
    let t = Traffic::new("http://h/0", "GET", 1);
    let head = t.head(3, "s1");
    let event = NewTrafficHeadData::new(&head);
    assert_eq!(event.send_data.event_name, "new-traffic");
    assert_eq!(event.send_data.payload.status, Status::Success);
    assert_eq!(event.send_data.payload.message, "请求状态更新");
    let data = event.send_data.payload.data.unwrap();
    assert_eq!(data.id, 3);
    assert_eq!(data.uri, "http://h/0");
    let pause = NewPauseTrafficData::new((
        Some("id".to_string()),
        TrafficData { traffic: Arc::new(t), body: None, traffic_type: "request".to_string() },
    ));
    assert_eq!(pause.send_data.event_name, "pause-traffic");
    assert_eq!(pause.send_data.payload.status, Status::Success);
    assert_eq!(pause.send_data.payload.message, "暂停规则匹配");
    assert_eq!(pause.send_data.payload.data.unwrap().0.as_deref(), Some("id"));
}

#[test]
fn log_files_by_day() {
    assert_eq!(log_file_name(2025, 2, 23), "ez-shark_20250223");
    assert_eq!(log_file_name(2025, 12, 1), "ez-shark_20251201");
    assert_eq!(log_file_name(-5, 10, 10), "ez-shark_-51010");
    assert!(is_old_log("ez-shark_20250222.log", "20250223"));
    assert!(!is_old_log("ez-shark_20250223.log", "20250223"));
    assert!(!is_old_log("ez-shark_20250224.log", "20250223"));
    assert!(!is_old_log("ez-shark_20250222.txt", "20250223"));
    assert!(!is_old_log("other_20250222.log", "20250223"));
    assert!(!is_old_log("ez-shark.log", "20250223"));
    assert!(!is_old_log("ez-shark_202.log", "20250223"));
    // a shorter date is compared with what follows it
    assert!(is_old_log("ez-shark_2025.log", "20250223"));
    // the eight bytes behind the name are compared as they are
    assert!(is_old_log("ez-shark-20250222.log", "20250223"));
    assert!(is_old_log("ez-sharkX1.log.log", "20250223"));
    assert!(!is_old_log("ez-shark_20250222.log", ""));
    assert!(!is_old_log("ez-shark_日本語.log", "20250223"));
    assert!(!is_old_log("", "20250223"));
}

fn leaf(n: u8) -> Leaf {
    Leaf { cert: vec![n, n], key: vec![n] }
}

#[test]
fn a_leaf_that_was_made_is_used_again() {
    let mut ca = CertificateAuthority::new();
    assert!(ca.lookup("example.test:443").is_none());
    assert_eq!(cache_key("Example.TEST:443"), "example.test:443");
    let first = ca.gen_server_config("Example.test:443", Ok(leaf(1))).unwrap();
    assert_eq!(first.cert, vec![1, 1]);
    // the cache answers, whatever is offered
    let again = ca.gen_server_config("example.TEST:443", Ok(leaf(2))).unwrap();
    assert_eq!(again.cert, vec![1, 1]);
    assert_eq!(again.key, vec![1]);
    let again = ca.gen_server_config("example.test:443", Err("no key".to_string())).unwrap();
    assert_eq!(again.cert, vec![1, 1]);
    // another port is another authority
    let other = ca.gen_server_config("example.test:8443", Ok(leaf(3))).unwrap();
    assert_eq!(other.cert, vec![3, 3]);
    // a failure is handed on and keeps nothing
    assert_eq!(ca.gen_server_config("fail.test:443", Err("no key".to_string())).unwrap_err(), "no key");
    assert!(ca.lookup("fail.test:443").is_none());
    assert_eq!(ca.leaves.len(), 2);
    assert_eq!(ca.lookup("EXAMPLE.TEST:443").unwrap().cert, vec![1, 1]);
    assert_eq!(ca.lookup("example.test:8443").unwrap().cert, vec![3, 3]);
}

#[test]
fn entries_of_a_har_file_are_imported_one_by_one() {
    let mut s = State::new(PrintMode::Nothing);
    s.add_traffic(Traffic::new("http://h/0", "GET", 1), "s1").unwrap();
    assert_eq!(
        import_entry(&mut s, false, &entry(), "s1", None, None).unwrap_err(),
        "Invalid HAR file format"
    );
    assert_eq!(s.next_id, 1);
    assert!(s.get_traffic(1).is_err());

    let first = import_entry(&mut s, true, &entry(), "s2", Some("/tmp/a-req"), None).unwrap();
    let second = import_entry(&mut s, true, &entry(), "s2", None, Some("/tmp/b-res")).unwrap();
    assert_eq!(first.id, 1);
    assert_eq!(second.id, 2);
    assert_eq!(first.session_id, "s2");
    assert_eq!(first.transaction_state, TransactionState::Completed);
    let kept = s.get_traffic(1).unwrap();
    assert!(kept.valid);
    assert_eq!(kept.gid, 1);
    assert_eq!(kept.session_id, "s2");
    assert_eq!(kept.req_body_file.as_deref(), Some("/tmp/a-req"));
    assert_eq!(kept.res_body_file, None);
    let kept = s.get_traffic(2).unwrap();
    assert_eq!(kept.gid, 2);
    assert_eq!(kept.res_body_file.as_deref(), Some("/tmp/b-res"));
    // what was there before is as it was
    assert_eq!(s.get_traffic(0).unwrap().uri, "http://h/0");
    assert_eq!(s.next_id, 3);

    s.next_id = u64::MAX;
    assert!(import_entry(&mut s, true, &entry(), "s2", None, None).is_err());
}
