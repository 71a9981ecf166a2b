use ezshark::codec::{compress, decompress};
use ezshark::models::external_proxy::{check_proxy_config, proxy_target};
use ezshark::models::map_local::{check_need_map_local, match_map_local, MapLocal, MapLocalItem};
use ezshark::models::ExternalProxy;
use ezshark::proxy_server::{setting_port, ProxyServer};
use ezshark::server::{
    after_body, classify_tunnel, continue_request, extract_mime, get_body_bytes, get_body_data,
    get_header_value, inner_uri, plan_answer,
    is_protobuf_content, map_local_response, parse_method, req_body_file_name,
    res_body_file_name, response_headers, set_content_length, temp_dir_name, tunnel_error,
    unknown_protocol_error, wants_proxy_headers, BodyRead, Dispatch, HttpMethod, PrintMode,
    RequestPlan,
    Server, ServerBuilder, TunnelFailure, TunnelKind,
};
use ezshark::state::{
    apply_modification, check_body_breakpoints, check_breakpoints, matches_breakpoint, Breakpoint,
    BreakpointConditions, BreakpointMatchResult, BreakpointsConfig, PauseRegistry, Req, Res,
    State, TrafficModification,
};
use ezshark::traffic::{Body, Header, Headers, Traffic, TransactionState};

fn headers(pairs: &[(&str, &str)]) -> Headers {
    Headers {
        items: pairs
            .iter()
            .map(|(n, v)| Header { name: n.to_string(), value: v.to_string() })
            .collect(),
    }
}

fn rule(id: &str) -> Breakpoint {
    Breakpoint {
        id: id.to_string(),
        enabled: true,
        conditions: BreakpointConditions {
            url: None,
            method: None,
            request: None,
            response: None,
            req_enable: true,
            res_enable: true,
        },
    }
}

fn login_rule() -> Breakpoint {
    let mut r = rule("login");
    r.conditions.res_enable = false;
    r.conditions.url = Some("/login".to_string());
    r.conditions.request = Some(Req { body: Some("\"pw\":\"old\"".to_string()), headers: None });
    r
}

fn config(rules: Vec<Breakpoint>) -> BreakpointsConfig {
    BreakpointsConfig { breakpoints: rules, tool_enabled: true }
}

fn request(uri: &str, method: &str, hs: &[(&str, &str)]) -> Traffic {
    let mut t = Traffic::new(uri, method, 1);
    t.set_req_headers(headers(hs));
    t
}

fn modification(id: &str, kind: &str) -> TrafficModification {
    TrafficModification {
        id: id.to_string(),
        modified_type: kind.to_string(),
        url: None,
        method: None,
        modified_headers: None,
        modified_body: None,
    }
}

fn header_list(h: &Option<Headers>) -> Vec<(String, String)> {
    h.as_ref()
        .map(|h| h.items.iter().map(|x| (x.name.clone(), x.value.clone())).collect())
        .unwrap_or_default()
}

#[test]
fn a_rule_without_conditions_matches_in_full() {
    let t = request("http://h/x", "GET", &[]);
    assert_eq!(matches_breakpoint(&rule("a"), &t, "request"), BreakpointMatchResult::FullMatch);
    assert_eq!(matches_breakpoint(&rule("a"), &t, "response"), BreakpointMatchResult::FullMatch);
    assert_eq!(matches_breakpoint(&rule("a"), &t, "other"), BreakpointMatchResult::NoMatch);
}

#[test]
fn a_direction_that_is_switched_off_matches_nothing() {
    let t = request("http://h/x", "GET", &[]);
    let mut r = rule("a");
    r.conditions.req_enable = false;
    assert_eq!(matches_breakpoint(&r, &t, "request"), BreakpointMatchResult::NoMatch);
    assert_eq!(matches_breakpoint(&r, &t, "response"), BreakpointMatchResult::FullMatch);
    r.conditions.req_enable = true;
    r.conditions.res_enable = false;
    assert_eq!(matches_breakpoint(&r, &t, "response"), BreakpointMatchResult::NoMatch);
}

#[test]
fn url_and_method_must_hold() {
    let t = request("http://h/login?x=1", "POST", &[]);
    let mut r = rule("a");
    r.conditions.url = Some("/login".to_string());
    assert_eq!(matches_breakpoint(&r, &t, "request"), BreakpointMatchResult::FullMatch);
    r.conditions.url = Some("/LOGIN".to_string());
    assert_eq!(matches_breakpoint(&r, &t, "request"), BreakpointMatchResult::NoMatch);
    r.conditions.url = None;
    r.conditions.method = Some("POST".to_string());
    assert_eq!(matches_breakpoint(&r, &t, "request"), BreakpointMatchResult::FullMatch);
    r.conditions.method = Some("post".to_string());
    assert_eq!(matches_breakpoint(&r, &t, "request"), BreakpointMatchResult::NoMatch);
}

#[test]
fn a_header_condition_looks_at_names_and_values_in_any_case() {
    let t = request("http://h/x", "GET", &[("Accept", "text/HTML"), ("X-Token", "abc")]);
    let mut r = rule("a");
    r.conditions.request = Some(Req { body: None, headers: Some("x-tok".to_string()) });
    assert_eq!(matches_breakpoint(&r, &t, "request"), BreakpointMatchResult::FullMatch);
    r.conditions.request = Some(Req { body: None, headers: Some("HTML".to_string()) });
    assert_eq!(matches_breakpoint(&r, &t, "request"), BreakpointMatchResult::FullMatch);
    r.conditions.request = Some(Req { body: None, headers: Some("json".to_string()) });
    assert_eq!(matches_breakpoint(&r, &t, "request"), BreakpointMatchResult::NoMatch);
    // the response has no headers yet
    r.conditions.response = Some(Res { body: None, headers: Some("x".to_string()) });
    assert_eq!(matches_breakpoint(&r, &t, "response"), BreakpointMatchResult::NoMatch);
}

#[test]
fn a_body_condition_defers_to_the_body() {
    let t = request("http://h/x", "GET", &[("Accept", "text/html")]);
    let mut r = rule("a");
    r.conditions.request = Some(Req { body: Some("x".to_string()), headers: None });
    assert_eq!(matches_breakpoint(&r, &t, "request"), BreakpointMatchResult::HeaderOnlyMatch);
    // a header condition that fails comes first
    r.conditions.request =
        Some(Req { body: Some("x".to_string()), headers: Some("json".to_string()) });
    assert_eq!(matches_breakpoint(&r, &t, "request"), BreakpointMatchResult::NoMatch);
}

#[test]
fn the_engine_gives_the_strongest_verdict() {
    let t = request("http://h/x", "GET", &[]);
    let mut off = config(vec![rule("a")]);
    off.tool_enabled = false;
    assert!(check_breakpoints(&off, &t, "request").is_none());
    assert!(check_breakpoints(&config(vec![]), &t, "request").is_none());
    assert!(check_breakpoints(&BreakpointsConfig::new(), &t, "request").is_none());

    let mut body1 = rule("b1");
    body1.conditions.request = Some(Req { body: Some("x".to_string()), headers: None });
    let mut body2 = rule("b2");
    body2.conditions.request = Some(Req { body: Some("y".to_string()), headers: None });
    let mut disabled = rule("d");
    disabled.enabled = false;
    let mut other_url = rule("u");
    other_url.conditions.url = Some("/nowhere".to_string());

    let (rules, verdict) =
        check_breakpoints(&config(vec![body1.clone(), other_url.clone(), body2.clone()]), &t, "request")
            .unwrap();
    assert_eq!(verdict, BreakpointMatchResult::HeaderOnlyMatch);
    assert_eq!(rules.iter().map(|r| r.id.clone()).collect::<Vec<_>>(), vec!["b1", "b2"]);

    let (rules, verdict) = check_breakpoints(
        &config(vec![body1.clone(), disabled.clone(), rule("f1"), body2.clone(), rule("f2")]),
        &t,
        "request",
    )
    .unwrap();
    assert_eq!(verdict, BreakpointMatchResult::FullMatch);
    assert_eq!(rules.iter().map(|r| r.id.clone()).collect::<Vec<_>>(), vec!["f1"]);

    assert!(check_breakpoints(&config(vec![disabled, other_url]), &t, "request").is_none());
}

#[test]
fn the_body_phase_looks_for_the_body_text_of_a_candidate() {
    let body = Body::bytes(b"{\"u\":\"a\",\"pw\":\"old\"}");
    assert_eq!(body.encode, "utf8");
    assert_eq!(body.size, 20);
    let candidates = vec![login_rule()];
    assert!(check_body_breakpoints(&body, &candidates, "request"));
    assert!(!check_body_breakpoints(&body, &candidates, "response"));
    assert!(!check_body_breakpoints(&body, &candidates, "other"));
    assert!(!check_body_breakpoints(&body, &vec![], "request"));
    let other = Body::bytes(b"{\"u\":\"a\",\"pw\":\"new\"}");
    assert!(!check_body_breakpoints(&other, &candidates, "request"));
    // a candidate without a body text is no hit
    assert!(!check_body_breakpoints(&body, &vec![rule("a")], "request"));
    let state = State::new(PrintMode::Nothing);
    assert!(state.check_body_breakpoints(&body, &candidates, "request"));
    assert!(state.check_breakpoints(&config(vec![rule("a")]), &request("http://h/", "GET", &[]), "request").is_some());
}

#[test]
fn bodies_that_are_no_text_are_shown_in_base64() {
    let body = Body::bytes(&[0xff, 0xfe, 0xfd]);
    assert_eq!(body.encode, "base64");
    assert_eq!(body.value, "//79");
    assert_eq!(body.size, 3);
}

#[test]
fn a_change_merges_headers_without_regard_to_case() {
    let mut t = request("http://h/x", "GET", &[("Accept", "a"), ("X-One", "1"), ("accept", "b")]);
    let mut body = Some(b"old".to_vec());
    let mut m = modification("p", "request");
    m.url = Some("http://h/y".to_string());
    m.method = Some("PUT".to_string());
    m.modified_headers = Some(vec![
        ("ACCEPT".to_string(), "c".to_string()),
        ("X-Two".to_string(), "2".to_string()),
        ("x-two".to_string(), "3".to_string()),
    ]);
    m.modified_body = Some("new".to_string());
    apply_modification(&mut t, &mut body, &m);
    assert_eq!(t.uri, "http://h/y");
    assert_eq!(t.method, "PUT");
    assert_eq!(body, Some(b"new".to_vec()));
    let expected: Vec<(String, String)> =
        [("Accept", "c"), ("X-One", "1"), ("accept", "b"), ("X-Two", "3")]
            .iter()
            .map(|(a, b)| (a.to_string(), b.to_string()))
            .collect();
    assert_eq!(header_list(&t.req_headers), expected);
    // content-length is not touched here
    assert!(t.req_headers.as_ref().unwrap().items.iter().all(|h| h.name != "content-length"));
}

#[test]
fn the_same_change_twice_is_the_change_once() {
    let base = request("http://h/x", "GET", &[("A", "1"), ("b", "2"), ("a", "9")]);
    let mut m = modification("p", "request");
    m.url = Some("http://h/y".to_string());
    m.modified_headers = Some(vec![
        ("a".to_string(), "x".to_string()),
        ("C".to_string(), "y".to_string()),
        ("c".to_string(), "z".to_string()),
        ("B".to_string(), "w".to_string()),
        ("A".to_string(), "v".to_string()),
    ]);
    m.modified_body = Some("body".to_string());
    let mut once = base.clone();
    let mut once_body = None;
    apply_modification(&mut once, &mut once_body, &m);
    let mut twice = base.clone();
    let mut twice_body = None;
    apply_modification(&mut twice, &mut twice_body, &m);
    apply_modification(&mut twice, &mut twice_body, &m);
    assert_eq!(header_list(&once.req_headers), header_list(&twice.req_headers));
    assert_eq!(once.uri, twice.uri);
    assert_eq!(once.method, twice.method);
    assert_eq!(once_body, twice_body);
    let expected: Vec<(String, String)> = [("A", "v"), ("b", "w"), ("a", "9"), ("C", "z")]
        .iter()
        .map(|(a, b)| (a.to_string(), b.to_string()))
        .collect();
    assert_eq!(header_list(&once.req_headers), expected);
}

#[test]
fn a_change_for_the_response_leaves_the_request_alone() {
    let mut t = request("http://h/x", "GET", &[("a", "1")]);
    t.set_response_head(200, "HTTP/1.1", headers(&[("b", "2")]), 3);
    let mut body = None;
    let mut m = modification("p", "response");
    m.modified_headers = Some(vec![("B".to_string(), "3".to_string()), ("a".to_string(), "4".to_string())]);
    apply_modification(&mut t, &mut body, &m);
    assert_eq!(header_list(&t.req_headers), vec![("a".to_string(), "1".to_string())]);
    assert_eq!(
        header_list(&t.res_headers),
        vec![("b".to_string(), "3".to_string()), ("a".to_string(), "4".to_string())]
    );
    assert_eq!(body, None);
}

#[test]
fn the_registry_keeps_suspended_transactions() {
    let mut reg = PauseRegistry::new();
    assert!(!reg.contains("a"));
    assert!(reg.insert("a", request("http://h/1", "GET", &[]), Some(b"one".to_vec())));
    assert!(reg.insert("b", request("http://h/2", "GET", &[]), None));
    assert!(!reg.insert("a", request("http://h/3", "GET", &[]), None));
    assert!(reg.contains("a"));
    assert_eq!(reg.entries.len(), 2);

    let mut m = modification("a", "request");
    m.url = Some("http://h/changed".to_string());
    assert!(reg.modify(&m).is_ok());
    assert_eq!(reg.modify(&modification("zzz", "request")).unwrap_err(), "Traffic not found");

    assert!(reg.resume("a").is_ok());
    assert_eq!(reg.resume("zzz").unwrap_err(), "Traffic not found");
    // a change that comes after the transaction was let go is refused
    let mut late = modification("a", "request");
    late.url = Some("http://h/late".to_string());
    assert_eq!(reg.modify(&late).unwrap_err(), "Traffic not found");

    let taken = reg.take("a").unwrap();
    assert_eq!(taken.traffic.uri, "http://h/changed");
    assert_eq!(taken.body, Some(b"one".to_vec()));
    assert!(taken.resumed);
    assert!(reg.take("a").is_none());
    assert_eq!(reg.modify(&m).unwrap_err(), "Traffic not found");
    assert_eq!(reg.entries.len(), 1);
    assert_eq!(reg.entries[0].id, "b");
}

#[test]
fn gids_are_given_out_in_order() {
    let mut s = State::new(PrintMode::Nothing);
    assert!(!s.is_monitor_traffic());
    assert!(s.set_monitor_traffic("s1".to_string()).is_ok());
    assert!(s.is_monitor_traffic());
    let a = s.add_traffic(request("http://h/0", "GET", &[]), "s1").unwrap();
    let b = s.add_traffic(request("http://h/1", "GET", &[]), "s1").unwrap();
    let c = s.add_traffic(request("http://h/2", "GET", &[]), "s2").unwrap();
    assert_eq!((a.id, b.id, c.id), (0, 1, 2));
    assert_eq!(a.session_id, "s1");
    assert_eq!(c.session_id, "s2");
    assert_eq!(s.next_id, 3);
    let kept = s.get_traffic(1).unwrap();
    assert_eq!(kept.uri, "http://h/1");
    assert_eq!(kept.gid, 1);
    assert_eq!(kept.session_id, "s1");
    assert_eq!(s.get_traffic(7).unwrap_err(), "Traffic with id 7 not found");

    let mut invalid = request("http://h/3", "GET", &[]);
    invalid.valid = false;
    assert_eq!(s.add_traffic(invalid, "s1").unwrap_err(), "Invalid traffic");
    assert_eq!(s.next_id, 3);

    let mut heads: Vec<u64> = s.list_heads("s1").iter().map(|h| h.id).collect();
    heads.sort();
    assert_eq!(heads, vec![0, 1, 2]);

    assert!(s.delete_traffic(1).is_ok());
    assert_eq!(s.delete_traffic(1).unwrap_err(), "Traffic not found");
    assert!(s.get_traffic(1).is_err());
    assert_eq!(s.list_heads("s1").len(), 2);
}

#[test]
fn heads_are_only_handed_out_for_opened_transactions() {
    let mut s = State::new(PrintMode::Nothing);
    let t = request("http://h/0", "GET", &[]);
    assert!(s.create_traffic_head(&t, 0, "s1").is_err());
    s.add_traffic(t.clone(), "s1").unwrap();
    let h = s.create_traffic_head(&t, 0, "s1").unwrap();
    assert_eq!(h.id, 0);
    assert!(s.create_traffic_head(&t, 1, "s1").is_err());
    let mut invalid = t.clone();
    invalid.valid = false;
    assert_eq!(s.create_traffic_head(&invalid, 0, "s1").unwrap_err(), "Invalid traffic");
}

#[test]
fn finishing_closes_the_stored_record() {
    let mut s = State::new(PrintMode::Nothing);
    let mut t = request("http://h/0", "GET", &[]);
    t.set_response_head(200, "HTTP/1.1", headers(&[]), 5);
    t.set_response_done(6);
    let id = s.add_traffic(t, "s1").unwrap().id;
    let head = s.done_traffic(id, 2, "s1").unwrap();
    assert_eq!(head.transaction_state, TransactionState::Completed);
    assert_eq!(head.status, Some(200));
    let kept = s.get_traffic(id).unwrap();
    assert_eq!(kept.transaction_state, TransactionState::Completed);
    assert_eq!(kept.res_body_size, Some(2));
    assert!(s.done_traffic(99, 2, "s1").is_err());
    // a record without a status fails
    let id = s.add_traffic(request("http://h/1", "GET", &[]), "s1").unwrap().id;
    let head = s.done_traffic(id, 0, "s1").unwrap();
    assert_eq!(head.transaction_state, TransactionState::Failed);
}

#[test]
fn migration_keeps_gids_and_records() {
    let mut old = State::new(PrintMode::Nothing);
    for i in 0..3 {
        old.add_traffic(request(&format!("http://h/{i}"), "GET", &[]), "s1").unwrap();
    }
    let mut new = State::new(PrintMode::Oneline);
    new.migrate_from(&mut old);
    assert_eq!(new.next_id, 3);
    for i in 0..3u64 {
        let t = new.get_traffic(i).unwrap();
        assert_eq!(t.uri, format!("http://h/{i}"));
        assert_eq!(t.gid, i);
        assert_eq!(t.session_id, "s1");
        assert!(old.get_traffic(i).is_ok());
    }
    assert_eq!(new.list_heads("s1").len(), 3);
    let d = new.add_traffic(request("http://h/3", "GET", &[]), "s1").unwrap();
    assert_eq!(d.id, 3);
}

#[test]
fn ports_below_1024_are_refused_before_binding() {
    assert_eq!(setting_port(1023).unwrap_err(), "port is error");
    assert_eq!(setting_port(0).unwrap_err(), "port is error");
    assert_eq!(setting_port(80).unwrap_err(), "port is error");
    assert!(setting_port(1024).is_ok());
    assert!(setting_port(8888).is_ok());
    assert!(setting_port(65535).is_ok());
}

#[test]
fn a_restart_on_another_port_preserves_the_history() {
    let mut ps = ProxyServer::new();
    assert!(ps.get_state().is_none());
    assert!(ps.needs_restart(8888));
    assert!(ps.stop_previous_server(None).is_ok());
    assert_eq!(
        ps.start_new_server(false, "d".to_string()).unwrap_err(),
        "Please check if the port is occupied."
    );
    assert!(ps.server.is_none());
    assert!(ps.start_new_server(true, "d".to_string()).is_ok());
    assert_eq!(ps.server_started(8888, Ok(())).unwrap(), "Success");
    assert_eq!(ps.current_port, 8888);
    assert!(!ps.needs_restart(8888));
    assert!(ps.needs_restart(9999));
    {
        let server = ps.server.as_mut().unwrap();
        server.state.set_monitor_traffic("s1".to_string()).unwrap();
        for i in 0..3 {
            let mut t = request(&format!("http://h/{i}"), "GET", &[("a", "b")]);
            t.set_response_head(200, "HTTP/1.1", headers(&[]), 5);
            server.state.add_traffic(t, "s1").unwrap();
        }
    }
    assert!(setting_port(9999).is_ok());
    assert!(ps.stop_previous_server(Some(true)).is_ok());
    assert!(ps.server.is_none());
    assert_eq!(ps.current_port, 0);
    assert!(ps.old_state.is_some());
    assert!(ps.start_new_server(true, "d".to_string()).is_ok());
    assert_eq!(ps.server_started(9999, Ok(())).unwrap(), "Success");
    assert_eq!(ps.current_port, 9999);
    let server = ps.server.as_mut().unwrap();
    for i in 0..3u64 {
        let t = server.state.get_traffic(i).unwrap();
        assert_eq!(t.gid, i);
        assert_eq!(t.uri, format!("http://h/{i}"));
        assert_eq!(t.status, Some(200));
        assert_eq!(t.req_headers.as_ref().unwrap().items[0].name, "a");
    }
    assert_eq!(server.state.next_id, 3);
}

#[test]
fn a_stop_signal_without_a_receiver_is_an_error() {
    let mut ps = ProxyServer::new();
    ps.start_new_server(true, "d".to_string()).unwrap();
    ps.server_started(8888, Ok(())).unwrap();
    assert_eq!(
        ps.stop_previous_server(Some(false)).unwrap_err(),
        "Failed to send stop signal: receiver dropped"
    );
    assert!(ps.server.is_none());
    assert_eq!(ps.current_port, 0);
    let mut ps = ProxyServer::new();
    ps.start_new_server(true, "d".to_string()).unwrap();
    assert_eq!(
        ps.server_started(8888, Err("no loop".to_string())).unwrap_err(),
        "Error: Failed to start server: no loop"
    );
    assert!(ps.server.is_none());
    let mut ps = ProxyServer::new();
    ps.start_new_server(true, "d".to_string()).unwrap();
    ps.stop_server();
    assert!(ps.server.is_some());
    ps.server_started(8888, Ok(())).unwrap();
    ps.stop_server();
    assert!(ps.server.is_none());
    assert_eq!(ps.current_port, 0);
}

#[test]
fn tunnels_are_told_by_their_first_bytes() {
    assert_eq!(classify_tunnel(b"GET "), TunnelKind::PlainHttp);
    assert_eq!(classify_tunnel(b"GET /x"), TunnelKind::PlainHttp);
    assert_eq!(classify_tunnel(&[0x16, 0x03, 0x01, 0x02]), TunnelKind::Tls);
    assert_eq!(classify_tunnel(&[0x16, 0x03]), TunnelKind::Tls);
    assert_eq!(classify_tunnel(b"ABCD"), TunnelKind::Unknown);
    assert_eq!(classify_tunnel(b"GET"), TunnelKind::Unknown);
    assert_eq!(classify_tunnel(b"get "), TunnelKind::Unknown);
    assert_eq!(classify_tunnel(&[0x16, 0x04, 0, 0]), TunnelKind::Unknown);
    assert_eq!(classify_tunnel(&[0x16]), TunnelKind::Unknown);
    assert_eq!(classify_tunnel(&[]), TunnelKind::Unknown);
    assert_eq!(classify_tunnel(b"POST"), TunnelKind::Unknown);
}

#[test]
fn an_unknown_protocol_is_recorded_only_while_monitoring() {
    assert_eq!(
        unknown_protocol_error(b"ABCD"),
        "Unknown protocol, read '[41, 42, 43, 44]' from upgraded connection"
    );
    assert_eq!(unknown_protocol_error(&[]), "Unknown protocol, read '[]' from upgraded connection");
    assert_eq!(
        unknown_protocol_error(&[0x0a, 0xff]),
        "Unknown protocol, read '[0A, FF]' from upgraded connection"
    );
    let mut server = ServerBuilder::new().print_mode(PrintMode::Oneline).build("d".to_string());
    let mut t = Traffic::new("h:9", "CONNECT", 1);
    t.add_error(&unknown_protocol_error(b"ABCD"));
    assert!(server.handle_connect(t.clone(), "s1").is_none());
    assert_eq!(server.state.next_id, 0);
    server.state.set_monitor_traffic("s1".to_string()).unwrap();
    let head = server.handle_connect(t, "s1").unwrap();
    assert_eq!(head.id, 0);
    let kept = server.state.get_traffic(0).unwrap();
    assert!(kept.valid);
    assert!(kept.error.as_ref().unwrap().contains("Unknown protocol"));
    assert_eq!(kept.transaction_state, TransactionState::Failed);
    assert_eq!(head.transaction_state, TransactionState::Failed);
    // a tunnel that went well leaves its record open
    let head = server.handle_connect(Traffic::new("h:443", "CONNECT", 1), "s1").unwrap();
    assert_eq!(head.id, 1);
    assert_eq!(head.transaction_state, TransactionState::Requesting);
}

#[test]
fn a_body_that_does_not_end_in_time_counts_as_empty() {
    assert_eq!(get_body_bytes(BodyRead::Read(b"abc".to_vec())).unwrap(), b"abc".to_vec());
    assert_eq!(get_body_bytes(BodyRead::TimedOut).unwrap(), Vec::<u8>::new());
    assert_eq!(
        get_body_bytes(BodyRead::Failed("reset".to_string())).unwrap_err(),
        "Error collecting body: reset"
    );
}

#[test]
fn the_verdict_of_a_rule_depends_on_its_arguments_alone() {
    let t = request("http://h/login", "POST", &[("Accept", "text/html")]);
    let r = login_rule();
    let first = matches_breakpoint(&r, &t, "request");
    for _ in 0..3 {
        assert_eq!(matches_breakpoint(&r, &t, "request"), first);
        assert_eq!(matches_breakpoint(&r.clone(), &t.clone(), "request"), first);
    }
    assert_eq!(first, BreakpointMatchResult::HeaderOnlyMatch);
    assert_eq!(t.uri, "http://h/login");
    assert!(t.error.is_none());
}

#[test]
fn tunnel_failures_in_words() {
    let e = |s: &str| s.to_string();
    assert_eq!(tunnel_error(&TunnelFailure::Upgrade(e("x")), "h:9").unwrap(), "Upgrade error: x");
    assert_eq!(
        tunnel_error(&TunnelFailure::Read(e("x")), "h:9").unwrap(),
        "Failed to read from upgraded connection: x"
    );
    assert_eq!(
        tunnel_error(&TunnelFailure::PlainHttp(e("x")), "h:9").unwrap(),
        "Failed to read from upgraded connection: x"
    );
    assert_eq!(
        tunnel_error(&TunnelFailure::ServerConfig(e("x")), "h:9").unwrap(),
        "Failed to build server config: x"
    );
    assert_eq!(
        tunnel_error(&TunnelFailure::TlsAccept(e("x")), "h:9").unwrap(),
        "Failed to establish TLS Connection: x"
    );
    assert_eq!(
        tunnel_error(&TunnelFailure::Https(e("x")), "h:9").unwrap(),
        "HTTPS connect error: x"
    );
    assert!(tunnel_error(&TunnelFailure::Https(e("error shutting down connection: y")), "h:9")
        .is_none());
    assert_eq!(
        tunnel_error(&TunnelFailure::Connect(e("x")), "h:9").unwrap(),
        "Failed to connect to h:9: x"
    );
    assert_eq!(
        tunnel_error(&TunnelFailure::Copy(e("x")), "h:9").unwrap(),
        "Failed to tunnel unknown protocol to h:9: x"
    );
}

#[test]
fn requests_are_planned_by_uri_method_and_monitoring() {
    let mut server = ServerBuilder::new().build("d".to_string());
    let none = BreakpointsConfig::new();
    let h = server.handle("/relative", "GET", headers(&[]), 1, "s1", &none);
    assert_eq!(h.plan, RequestPlan::Reject);
    assert!(h.traffic.is_none());
    let h = server.handle("example.test:443", "CONNECT", headers(&[]), 1, "s1", &none);
    assert_eq!(h.plan, RequestPlan::Tunnel);
    assert!(h.head.is_none());
    let h = server.handle("http://h/x", "GET", headers(&[]), 1, "s1", &none);
    assert_eq!(h.plan, RequestPlan::Bypass);
    assert!(h.head.is_none());
    assert_eq!(server.state.next_id, 0);

    server.state.set_monitor_traffic("s1".to_string()).unwrap();
    let h = server.handle("http://h/x", "GET", headers(&[("a", "b")]), 7, "s1", &none);
    assert_eq!(h.plan, RequestPlan::Forward);
    let head = h.head.unwrap();
    assert_eq!(head.id, 0);
    assert_eq!(head.uri, "http://h/x");
    assert_eq!(head.transaction_state, TransactionState::Requesting);
    assert_eq!(head.start_time, Some(7));
    let t = h.traffic.unwrap();
    assert_eq!(t.gid, 0);
    assert_eq!(t.session_id, "s1");
    assert!(server.state.get_traffic(0).is_ok());

    let h = server.handle("http://h/x", "GET", headers(&[]), 7, "s1", &config(vec![rule("f")]));
    assert_eq!(h.plan, RequestPlan::Pause);
    assert_eq!(h.head.unwrap().id, 1);
    let h = server.handle("http://h/login", "POST", headers(&[]), 7, "s1", &config(vec![login_rule()]));
    assert_eq!(h.plan, RequestPlan::InspectBody);
    assert_eq!(h.candidates.len(), 1);
    assert_eq!(h.candidates[0].id, "login");
    let h = server.handle("http://h/other", "POST", headers(&[]), 7, "s1", &config(vec![login_rule()]));
    assert_eq!(h.plan, RequestPlan::Forward);
    assert!(h.candidates.is_empty());
    server.state.next_id = u64::MAX;
    let h = server.handle("http://h/x", "GET", headers(&[]), 7, "s1", &none);
    assert_eq!(h.plan, RequestPlan::Refused);
}

#[test]
fn a_request_breakpoint_with_a_changed_body() {
    let old_json = b"{\"u\":\"a\",\"pw\":\"old\"}".to_vec();
    let new_json = "{\"u\":\"a\",\"pw\":\"new\"}";
    let raw = compress("gzip", &old_json).unwrap();
    let mut server = ServerBuilder::new().build("d".to_string());
    server.state.set_monitor_traffic("s1".to_string()).unwrap();
    let hs = headers(&[
        ("content-type", "application/json"),
        ("content-encoding", "gzip"),
        ("content-length", &raw.len().to_string()),
    ]);
    let handled = server.handle("http://h/login", "POST", hs, 10, "s1", &config(vec![login_rule()]));
    assert_eq!(handled.plan, RequestPlan::InspectBody);
    let mut traffic = handled.traffic.unwrap();
    let step = after_body(
        &mut traffic,
        BreakpointMatchResult::HeaderOnlyMatch,
        &handled.candidates,
        raw.clone(),
        true,
    );
    assert!(step.pause);
    assert_eq!(step.bytes, old_json);
    assert_eq!(step.content_encoding, "gzip");
    assert_eq!(traffic.req_body_hex.as_ref().unwrap().len(), old_json.len() * 2);
    assert!(traffic.req_body_hex.as_ref().unwrap().starts_with("7b2275"));

    let (id, event) = server.pause_traffic(&traffic, &step.bytes, true).unwrap();
    assert_eq!(event.send_data.event_name, "pause-traffic");
    let (shown_id, data) = event.send_data.payload.data.unwrap();
    assert_eq!(shown_id.as_deref(), Some(id.as_str()));
    assert_eq!(data.traffic_type, "request");
    assert_eq!(data.body.unwrap().value, String::from_utf8(old_json.clone()).unwrap());
    assert_eq!(id.len(), 36);

    let mut m = modification(&id, "request");
    m.modified_body = Some(new_json.to_string());
    assert!(server.state.modify_paused_traffic(&m).is_ok());
    assert!(server.state.modify_paused_traffic(&m).is_ok());
    assert!(server.state.continue_traffic(&id).is_ok());
    assert_eq!(server.state.modify_paused_traffic(&m).unwrap_err(), "Traffic not found");

    let (sent, body) = server.resume_traffic(&id, traffic, step.bytes, &step.content_encoding, true);
    assert!(server.state.paused_traffic.entries.is_empty());
    assert_ne!(body, raw);
    assert_eq!(decompress("gzip", &body).unwrap(), new_json.as_bytes().to_vec());
    assert_eq!(get_header_value(&sent.req_headers, "content-length"), body.len().to_string());
    assert_eq!(get_header_value(&sent.req_headers, "content-encoding"), "gzip");
    assert_eq!(server.state.continue_traffic(&id).unwrap_err(), "Traffic not found");
}

#[test]
fn a_pause_that_the_registry_has_lost_goes_on_unchanged() {
    let mut server = ServerBuilder::new().build("d".to_string());
    let t = request("http://h/x", "POST", &[("a", "b")]);
    let (sent, body) = server.resume_traffic("nobody", t, b"abc".to_vec(), "", true);
    assert_eq!(body, b"abc".to_vec());
    assert_eq!(
        header_list(&sent.req_headers),
        vec![("a".to_string(), "b".to_string()), ("content-length".to_string(), "3".to_string())]
    );
}

#[test]
fn the_body_is_looked_at_as_its_encoding_says() {
    let t = request("http://h/x", "POST", &[("content-encoding", "br")]);
    let packed = compress("br", b"hello").unwrap();
    let data = get_body_data(packed, &t, true);
    assert_eq!(data.bytes, b"hello".to_vec());
    assert_eq!(data.content.value, "hello");
    assert_eq!(data.content_encoding, "br");
    // no headers for the response yet: the bytes are taken as they are
    let data = get_body_data(b"raw".to_vec(), &t, false);
    assert_eq!(data.bytes, b"raw".to_vec());
    assert_eq!(data.content_encoding, "");
    // a body that does not decode is looked at as it came
    let data = get_body_data(b"raw".to_vec(), &t, true);
    assert_eq!(data.bytes, b"raw".to_vec());
    let mut t = t;
    let step = after_body(&mut t, BreakpointMatchResult::NoMatch, &vec![], b"\x01\xff".to_vec(), true);
    assert!(!step.pause);
    assert_eq!(t.req_body_hex.as_deref(), Some("01ff"));
    let step = after_body(&mut t, BreakpointMatchResult::FullMatch, &vec![], b"x".to_vec(), false);
    assert!(step.pause);
    assert_eq!(t.res_body_hex.as_deref(), Some("78"));
}

#[test]
fn a_get_through_the_pipeline() {
    let mut server = ServerBuilder::new().build("d".to_string());
    server.state.set_monitor_traffic("s1".to_string()).unwrap();
    let none = BreakpointsConfig::new();
    let handled =
        server.handle("https://example.test/hello", "GET", headers(&[("host", "example.test")]), 10, "s1", &none);
    assert_eq!(handled.plan, RequestPlan::Forward);
    let id = handled.head.unwrap().id;
    let mut traffic = handled.traffic.unwrap();
    match continue_request(&traffic, None, Some(&ExternalProxy::new())) {
        Dispatch::Direct(m) => assert_eq!(m, HttpMethod::Get),
        other => panic!("{other:?}"),
    }
    let r = server.process_proxy_res(
        &mut traffic,
        Some(id),
        200,
        "HTTP/1.1",
        headers(&[("content-type", "text/plain"), ("bad name", "x")]),
        20,
        "s1",
        &none,
    );
    assert_eq!(r.verdict, BreakpointMatchResult::NoMatch);
    assert_eq!(r.encoding, "");
    let head = r.head.unwrap();
    assert_eq!(head.transaction_state, TransactionState::Responding);
    assert_eq!(head.status, Some(200));
    let name = res_body_file_name(&traffic, &r.encoding);
    assert_eq!(name, "00000-res.txt");
    let out = server.continue_response(&mut traffic, Some(id), 30, "s1", Some("d/00000-res.txt")).unwrap();
    assert_eq!(out.status, 200);
    assert_eq!(out.headers.len(), 1);
    assert_eq!(out.headers[0].name, "content-type");
    assert_eq!(out.head.unwrap().transaction_state, TransactionState::ResponseDone);
    let last = server.state.done_traffic(id, 2, "s1").unwrap();
    assert_eq!(last.transaction_state, TransactionState::Completed);
    assert_eq!(last.status, Some(200));
    assert_eq!(last.uri, "https://example.test/hello");
    let kept = server.state.get_traffic(id).unwrap();
    assert_eq!(kept.res_body_size, Some(2));
    assert_eq!(kept.res_body_file.as_deref(), Some("d/00000-res.txt"));
}

#[test]
fn a_response_with_a_status_that_cannot_be_sent() {
    let mut server = ServerBuilder::new().build("d".to_string());
    let mut t = request("http://h/x", "GET", &[]);
    assert_eq!(
        server.continue_response(&mut t, None, 1, "s1", None).unwrap_err(),
        "Invalid status code"
    );
    t.set_response_head(99, "HTTP/1.1", headers(&[]), 2);
    assert!(server.continue_response(&mut t, None, 1, "s1", None).is_err());
    let mut t = request("http://h/x", "GET", &[]);
    t.set_response_head(1000, "HTTP/1.1", headers(&[]), 2);
    assert!(server.continue_response(&mut t, None, 1, "s1", None).is_err());
    let mut t = request("http://h/x", "GET", &[]);
    t.set_response_head(999, "HTTP/1.1", headers(&[]), 2);
    assert!(server.continue_response(&mut t, None, 1, "s1", None).is_ok());
    let mut t = request("http://h/x", "GET", &[]);
    t.set_response_head(100, "HTTP/1.1", headers(&[]), 2);
    let out = server.continue_response(&mut t, None, 1, "s1", None).unwrap();
    assert!(out.head.is_none());
    assert_eq!(t.transaction_state, TransactionState::Responding);
}

#[test]
fn errors_fail_the_record_and_publish_its_head() {
    let mut server = ServerBuilder::new().build("d".to_string());
    server.state.set_monitor_traffic("s1".to_string()).unwrap();
    let handled = server.handle("http://h/x", "GET", headers(&[]), 1, "s1", &BreakpointsConfig::new());
    let mut t = handled.traffic.unwrap();
    let answer = server.internal_server_error("upstream gone", &mut t, Some(0), "s1");
    assert_eq!(answer.status, 500);
    assert_eq!(answer.body, "upstream gone");
    let head = answer.head.unwrap();
    assert_eq!(head.id, 0);
    assert_eq!(head.transaction_state, TransactionState::Failed);
    assert_eq!(t.error.as_deref(), Some("upstream gone"));
    assert_eq!(server.state.get_traffic(0).unwrap().transaction_state, TransactionState::Failed);
    let mut u = request("http://h/y", "GET", &[]);
    let answer = server.internal_server_error("x", &mut u, None, "s1");
    assert_eq!(answer.status, 500);
    assert_eq!(answer.body, "x");
    assert!(answer.head.is_none());
    assert!(u.error.is_none());
}

#[test]
fn nothing_is_stored_under_a_gid_that_was_never_given_out() {
    let mut server = ServerBuilder::new().build("d".to_string());
    server.state.set_monitor_traffic("s1".to_string()).unwrap();
    let mut t = request("http://h/x", "GET", &[]);
    let answer = server.internal_server_error("gone", &mut t, Some(0), "s1");
    assert_eq!(answer.status, 500);
    assert!(answer.head.is_none());
    assert_eq!(t.transaction_state, TransactionState::Failed);
    assert!(server.state.get_traffic(0).is_err());
    assert!(server.state.update_traffic(&t, 5, "s1").is_none());
    assert!(server.state.get_traffic(5).is_err());
    assert!(server.state.done_traffic(0, 3, "s1").is_err());

    // the next gid is new to the store
    let head = server.state.add_traffic(request("http://h/y", "GET", &[]), "s1").unwrap();
    assert_eq!(head.id, 0);
    assert_eq!(server.state.get_traffic(0).unwrap().uri, "http://h/y");
    assert_eq!(server.state.list_heads("s1").len(), 1);

    // a record that is not kept for persisting is passed over
    let mut u = request("http://h/z", "GET", &[]);
    u.valid = false;
    assert!(server.state.update_traffic(&u, 0, "s1").is_none());
    assert_eq!(server.state.get_traffic(0).unwrap().uri, "http://h/y");

    // an opened gid takes the update
    let mut v = (*server.state.get_traffic(0).unwrap()).clone();
    v.set_response_head(204, "HTTP/1.1", headers(&[]), 9);
    let head = server.state.update_traffic(&v, 0, "s1").unwrap();
    assert_eq!(head.status, Some(204));
    assert_eq!(server.state.get_traffic(0).unwrap().status, Some(204));
    let head = server.state.done_traffic(0, 3, "s1").unwrap();
    assert_eq!(head.transaction_state, TransactionState::Completed);
    assert_eq!(server.state.get_traffic(0).unwrap().res_body_size, Some(3));
}

#[test]
fn a_relative_uri_is_recorded_as_failed_while_monitoring() {
    let mut server = ServerBuilder::new().build("d".to_string());
    let none = BreakpointsConfig::new();
    // monitoring off: nothing changes
    let h = server.handle("/relative", "GET", headers(&[]), 1, "s1", &none);
    assert_eq!(h.plan, RequestPlan::Reject);
    assert!(h.traffic.is_none());
    assert!(h.head.is_none());
    assert_eq!(server.state.next_id, 0);
    assert!(server.state.list_heads("s1").is_empty());

    server.state.set_monitor_traffic("s1".to_string()).unwrap();
    let h = server.handle("/relative", "GET", headers(&[("a", "b")]), 4, "s1", &config(vec![rule("f")]));
    assert_eq!(h.plan, RequestPlan::Reject);
    assert!(h.candidates.is_empty());
    let head = h.head.unwrap();
    assert_eq!(head.id, 0);
    assert_eq!(head.uri, "/relative");
    assert_eq!(head.transaction_state, TransactionState::Failed);
    let t = h.traffic.unwrap();
    assert_eq!(t.gid, 0);
    assert_eq!(t.session_id, "s1");
    assert_eq!(t.error.as_deref(), Some("No reserver proxy url"));
    assert_eq!(server.state.next_id, 1);
    let kept = server.state.get_traffic(0).unwrap();
    assert_eq!(kept.transaction_state, TransactionState::Failed);
    assert_eq!(kept.error.as_deref(), Some("No reserver proxy url"));
    assert_eq!(kept.uri, "/relative");

    // no gid is left: nothing is recorded
    server.state.next_id = u64::MAX;
    let h = server.handle("/relative", "GET", headers(&[]), 1, "s1", &none);
    assert_eq!(h.plan, RequestPlan::Reject);
    assert!(h.traffic.is_none());
    assert!(h.head.is_none());
}

#[test]
fn a_response_breakpoint() {
    let mut server = ServerBuilder::new().build("d".to_string());
    server.state.set_monitor_traffic("s1".to_string()).unwrap();
    let mut r = rule("res");
    r.conditions.req_enable = false;
    r.conditions.response = Some(Res { body: Some("secret".to_string()), headers: Some("JSON".to_string()) });
    let rules = config(vec![r]);
    let handled = server.handle("http://h/x", "GET", headers(&[]), 1, "s1", &rules);
    assert_eq!(handled.plan, RequestPlan::Forward);
    let mut t = handled.traffic.unwrap();
    let packed = compress("deflate", b"a secret").unwrap();
    let res = server.process_proxy_res(
        &mut t,
        Some(0),
        200,
        "HTTP/1.1",
        headers(&[("content-type", "application/json"), ("content-encoding", "deflate")]),
        2,
        "s1",
        &rules,
    );
    assert_eq!(res.verdict, BreakpointMatchResult::HeaderOnlyMatch);
    assert_eq!(res.encoding, "deflate");
    let step = after_body(&mut t, res.verdict, &res.candidates, packed, false);
    assert!(step.pause);
    assert_eq!(step.bytes, b"a secret".to_vec());
    let (id, _) = server.pause_traffic(&t, &step.bytes, false).unwrap();
    let mut m = modification(&id, "response");
    m.modified_body = Some("nothing".to_string());
    m.modified_headers = Some(vec![("X-Seen".to_string(), "1".to_string())]);
    server.state.modify_paused_traffic(&m).unwrap();
    server.state.continue_traffic(&id).unwrap();
    let (sent, body) = server.resume_traffic(&id, t, step.bytes, &step.content_encoding, false);
    assert_eq!(decompress("deflate", &body).unwrap(), b"nothing".to_vec());
    assert_eq!(get_header_value(&sent.res_headers, "content-length"), body.len().to_string());
    assert_eq!(get_header_value(&sent.res_headers, "X-Seen"), "1");
    // without monitoring and without a record the rules are not asked
    let mut quiet = ServerBuilder::new().build("d".to_string());
    let mut t = request("http://h/x", "GET", &[]);
    let res = quiet.process_proxy_res(&mut t, None, 200, "HTTP/1.1", headers(&[("a", "json")]), 2, "s1", &config(vec![rule("f")]));
    assert_eq!(res.verdict, BreakpointMatchResult::NoMatch);
    assert!(res.head.is_none());
}

#[test]
fn map_local_answers_without_going_upstream() {
    let item = MapLocalItem {
        id: "1".to_string(),
        enabled: true,
        url: "/api/stats".to_string(),
        header_local: "headers.json".to_string(),
        body_local: "body.json".to_string(),
    };
    let tool = MapLocal { tool_enabled: true, map_locals: vec![item.clone()] };
    let mut server = ServerBuilder::new().build("d".to_string());
    server.state.set_monitor_traffic("s1".to_string()).unwrap();
    let handled = server.handle("http://h/api/stats", "GET", headers(&[]), 1, "s1", &BreakpointsConfig::new());
    let mut t = handled.traffic.unwrap();
    let found = match continue_request(&t, Some(&tool), Some(&ExternalProxy::new())) {
        Dispatch::MapLocal(found) => found,
        other => panic!("{other:?}"),
    };
    assert_eq!(found.id, "1");
    let response = map_local_response(&found, Some(b"{ \"X-Stub\": \"1\" }"), Some(b"{\"ok\":true}".to_vec()));
    assert_eq!(response.status, 200);
    assert_eq!(response.body, b"{\"ok\":true}".to_vec());
    assert_eq!(response.headers.items.len(), 1);
    assert_eq!(response.headers.items[0].name, "x-stub");
    assert_eq!(response.headers.items[0].value, "1");
    let head = server.answer_locally(&mut t, Some(0), &found, &response, 5, "s1").unwrap();
    assert_eq!(head.transaction_state, TransactionState::Completed);
    assert_eq!(head.status, Some(200));
    assert_eq!(t.res_body_size, Some(11));
    assert_eq!(t.res_body_file.as_deref(), Some("body.json"));
    assert_eq!(server.state.get_traffic(0).unwrap().transaction_state, TransactionState::Completed);
}

#[test]
fn map_local_with_files_that_cannot_be_used() {
    let mut item = MapLocalItem {
        id: "1".to_string(),
        enabled: true,
        url: "/a".to_string(),
        header_local: "h".to_string(),
        body_local: "b".to_string(),
    };
    // a header file that is no JSON object: the headers are skipped, the body is served
    let r = map_local_response(&item, Some(b"[1, 2]"), Some(b"body".to_vec()));
    assert!(r.headers.items.is_empty());
    assert_eq!(r.body, b"body".to_vec());
    let r = map_local_response(&item, Some(b"not json"), None);
    assert!(r.headers.items.is_empty());
    assert!(r.body.is_empty());
    // values that are no texts are taken as JSON writes them; bad names are skipped
    let r = map_local_response(
        &item,
        Some(b"{\"A\": 5, \"b c\": \"x\", \"C\": true, \"a\": \"\\\"q\\\"\"}"),
        None,
    );
    let got: Vec<(String, String)> =
        r.headers.items.iter().map(|h| (h.name.clone(), h.value.clone())).collect();
    assert_eq!(
        got,
        vec![("a".to_string(), "\\\"q\\".to_string()), ("c".to_string(), "true".to_string())]
    );
    // both paths empty: an empty 200
    item.header_local = String::new();
    item.body_local = String::new();
    let r = map_local_response(&item, Some(b"{\"a\": \"1\"}"), Some(b"body".to_vec()));
    assert_eq!(r.status, 200);
    assert!(r.headers.items.is_empty());
    assert!(r.body.is_empty());
}

#[test]
fn map_local_rules_are_tried_in_order() {
    let item = |id: &str, enabled: bool, url: &str, h: &str, b: &str| MapLocalItem {
        id: id.to_string(),
        enabled,
        url: url.to_string(),
        header_local: h.to_string(),
        body_local: b.to_string(),
    };
    let tool = MapLocal {
        tool_enabled: true,
        map_locals: vec![
            item("off", false, "/a", "h", "b"),
            item("nourl", true, "", "h", "b"),
            item("nofiles", true, "/a", "", ""),
            item("good", true, "/b", "", "b"),
        ],
    };
    assert_eq!(match_map_local(&tool, "http://h/a").unwrap().id, "nofiles");
    assert_eq!(match_map_local(&tool, "http://h/b").unwrap().id, "good");
    assert!(match_map_local(&tool, "http://h/c").is_none());
    let off = MapLocal { tool_enabled: false, map_locals: vec![item("good", true, "/b", "", "b")] };
    assert!(match_map_local(&off, "http://h/b").is_none());
    assert_eq!(check_need_map_local(off).unwrap_err(), false);
    assert_eq!(check_need_map_local(tool).unwrap().id, "nofiles");
    // a rule without files is one to use: it answers with an empty 200
    let bare = MapLocal { tool_enabled: true, map_locals: vec![item("a", true, "/api", "", "")] };
    let found = check_need_map_local(bare).unwrap();
    assert_eq!(found.id, "a");
    let answer = map_local_response(&found, None, None);
    assert_eq!(answer.status, 200);
    assert!(answer.headers.items.is_empty());
    assert!(answer.body.is_empty());
    let none = MapLocal {
        tool_enabled: true,
        map_locals: vec![item("off", false, "/a", "h", "b"), item("nourl", true, "", "h", "b")],
    };
    assert_eq!(check_need_map_local(none).unwrap_err(), false);
    let empty = MapLocal { tool_enabled: true, map_locals: vec![] };
    assert_eq!(check_need_map_local(empty).unwrap_err(), false);
}

#[test]
fn requests_to_this_machine_bypass_the_external_proxy() {
    let mut proxy = ExternalProxy::new();
    assert!(proxy.enabled);
    assert!(proxy.always_bypass_localhost);
    assert_eq!(proxy.proxy_type, "http");
    assert_eq!(proxy.configurations.entry.len(), 3);
    assert_eq!(proxy.configurations.entry[0].mutable_external_proxy_configuration.port, 8080);
    assert_eq!(proxy.configurations.entry[1].string, "https");
    assert_eq!(proxy.configurations.entry[1].mutable_external_proxy_configuration.port, 443);
    assert_eq!(proxy.configurations.entry[2].string, "socks");
    assert_eq!(proxy.configurations.entry[2].mutable_external_proxy_configuration.port, 1080);
    // no host yet: the proxy cannot be used
    assert!(!check_proxy_config(&proxy, "http://example.test/x".to_string()));
    proxy.configurations.entry[0].mutable_external_proxy_configuration.host = "proxy.test".to_string();
    assert!(check_proxy_config(&proxy, "http://example.test/x".to_string()));
    assert!(!check_proxy_config(&proxy, "http://127.0.0.1:1234/x".to_string()));
    assert!(!check_proxy_config(&proxy, "http://localhost/x".to_string()));
    let t = request("http://127.0.0.1:1234/x", "GET", &[]);
    assert!(matches!(continue_request(&t, None, Some(&proxy)), Dispatch::Direct(HttpMethod::Get)));
    let t = request("http://example.test/x", "GET", &[]);
    match continue_request(&t, None, Some(&proxy)) {
        Dispatch::Proxied(m, target) => {
            assert_eq!(m, HttpMethod::Get);
            assert_eq!(target.uri, "http://proxy.test:8080");
            assert!(!target.requires_authentication);
        }
        other => panic!("{other:?}"),
    }
    // settings that are missing count as a proxy that is switched off
    assert!(matches!(continue_request(&t, None, None), Dispatch::Direct(HttpMethod::Get)));
    proxy.always_bypass_localhost = false;
    assert!(check_proxy_config(&proxy, "http://127.0.0.1:1234/x".to_string()));
    proxy.bypass_domains.string = vec!["other.test".to_string(), "example.test".to_string()];
    assert!(!check_proxy_config(&proxy, "http://example.test/x".to_string()));
    assert!(check_proxy_config(&proxy, "http://sub.example.test/x".to_string()));
    proxy.bypass_domains.string.clear();
    proxy.configurations.entry[0].mutable_external_proxy_configuration.requires_authentication = true;
    assert!(!check_proxy_config(&proxy, "http://example.test/x".to_string()));
    proxy.configurations.entry[0].mutable_external_proxy_configuration.username = "u".to_string();
    assert!(!check_proxy_config(&proxy, "http://example.test/x".to_string()));
    proxy.configurations.entry[0].mutable_external_proxy_configuration.encrypted_password = "p".to_string();
    assert!(check_proxy_config(&proxy, "http://example.test/x".to_string()));
    proxy.configurations.entry[0].mutable_external_proxy_configuration.port = 0;
    assert!(!check_proxy_config(&proxy, "http://example.test/x".to_string()));
    proxy.configurations.entry[0].mutable_external_proxy_configuration.port = 3128;
    proxy.proxy_type = "ftp".to_string();
    assert!(!check_proxy_config(&proxy, "http://example.test/x".to_string()));
    assert!(proxy_target(&proxy).is_none());
    proxy.proxy_type = "http".to_string();
    assert_eq!(proxy_target(&proxy).unwrap().uri, "http://proxy.test:3128");
    proxy.enabled = false;
    assert!(!check_proxy_config(&proxy, "http://example.test/x".to_string()));
}

#[test]
fn small_decisions_of_the_pipeline() {
    assert_eq!(parse_method("get"), Some(HttpMethod::Get));
    assert_eq!(parse_method("GET"), Some(HttpMethod::Get));
    assert_eq!(parse_method("Post"), Some(HttpMethod::Post));
    assert_eq!(parse_method("PUT"), Some(HttpMethod::Put));
    assert_eq!(parse_method("delete"), Some(HttpMethod::Delete));
    assert_eq!(parse_method("HEAD"), Some(HttpMethod::Head));
    assert_eq!(parse_method("options"), Some(HttpMethod::Options));
    assert_eq!(parse_method("PATCH"), Some(HttpMethod::Patch));
    assert_eq!(parse_method("trace"), Some(HttpMethod::Trace));
    assert_eq!(parse_method("CONNECT"), None);
    assert_eq!(parse_method(""), None);
    let t = request("http://h/x", "BREW", &[]);
    assert!(matches!(continue_request(&t, None, None), Dispatch::InvalidMethod));

    assert!(is_protobuf_content(Some("application/protobuf")));
    assert!(is_protobuf_content(Some("application/x-protobuf; charset=utf-8")));
    assert!(is_protobuf_content(Some("application/x-protobuffer")));
    assert!(!is_protobuf_content(Some("application/json")));
    assert!(!is_protobuf_content(None));

    assert!(wants_proxy_headers("http://h/x"));
    assert!(!wants_proxy_headers("https://h/x"));
    assert!(!wants_proxy_headers("HTTPS://h/x"));
    assert!(wants_proxy_headers("ftp://h"));
    assert!(wants_proxy_headers(""));

    assert_eq!(temp_dir_name(4242), "ez-shark-4242");
    assert_eq!(temp_dir_name(0), "ez-shark-0");

    let hs = Some(headers(&[("content-type", " text/html ; charset=utf-8"), ("content-type", "x")]));
    assert_eq!(extract_mime(&hs), "text/html");
    assert_eq!(extract_mime(&None), "");
    assert_eq!(get_header_value(&hs, "Content-Type"), "");
    let mut t = request("http://h/x", "GET", &[("content-type", "application/json")]);
    t.gid = 7;
    assert_eq!(req_body_file_name(&t), "00007-req.json");
    t.gid = 123456;
    assert_eq!(req_body_file_name(&t), "123456-req.json");
    t.set_response_head(200, "HTTP/1.1", headers(&[("content-type", "image/png")]), 2);
    assert_eq!(res_body_file_name(&t, "gzip"), "123456-res.png.enc.gz");
    assert_eq!(res_body_file_name(&t, "identity"), "123456-res.png");

    let mut h = headers(&[("a", "1"), ("content-length", "5"), ("content-length", "6")]);
    set_content_length(&mut h, 42);
    assert_eq!(
        h.items.iter().map(|x| x.value.clone()).collect::<Vec<_>>(),
        vec!["1", "42", "6"]
    );
    let mut h = headers(&[("Content-Length", "5")]);
    set_content_length(&mut h, 0);
    assert_eq!(h.items.len(), 2);
    assert_eq!(h.items[1].name, "content-length");
    assert_eq!(h.items[1].value, "0");

    let out = response_headers(&headers(&[("X-A", "1"), ("bad name", "2"), ("ok", "a\nb"), ("Ok", "fine")]));
    assert_eq!(
        out.iter().map(|x| (x.name.clone(), x.value.clone())).collect::<Vec<_>>(),
        vec![("x-a".to_string(), "1".to_string()), ("ok".to_string(), "fine".to_string())]
    );
    let server: Server = ServerBuilder::new().print_mode(PrintMode::Nothing).build("dir".to_string());
    assert_eq!(server.temp_dir, "dir");
    assert_eq!(server.state.print_mode, PrintMode::Nothing);
    assert_eq!(PrintMode::default(), PrintMode::Markdown);
}

#[test]
fn a_pause_keeps_the_history_for_the_resume() {
    let mut ps = ProxyServer::new();
    assert!(ps.start_new_server(true, "d".to_string()).is_ok());
    assert_eq!(ps.server_started(8888, Ok(())).unwrap(), "Success");
    {
        let server = ps.server.as_mut().unwrap();
        server.state.set_monitor_traffic("s1".to_string()).unwrap();
        for i in 0..2 {
            let t = request(&format!("http://h/{i}"), "GET", &[]);
            server.state.add_traffic(t, "s1").unwrap();
        }
    }
    assert!(ps.pause_server(Some(true)).is_ok());
    assert!(ps.server.is_none());
    assert_eq!(ps.current_port, 0);
    assert!(!ps.stop_sender);
    assert!(ps.old_state.is_some());
    assert_eq!(
        ps.resume_server(false, "d".to_string()).unwrap_err(),
        "Please check if the port is occupied."
    );
    assert!(ps.server.is_none());
    assert!(ps.resume_server(true, "e".to_string()).is_ok());
    assert_eq!(ps.server_started(8888, Ok(())).unwrap(), "Success");
    let server = ps.server.as_mut().unwrap();
    assert_eq!(server.temp_dir, "e");
    assert_eq!(server.state.get_traffic(0).unwrap().uri, "http://h/0");
    assert_eq!(server.state.get_traffic(1).unwrap().uri, "http://h/1");
    assert!(server.state.get_traffic(2).is_err());
    assert_eq!(server.state.next_id, 2);
}

#[test]
fn a_shutdown_leaves_no_engine_behind() {
    let mut ps = ProxyServer::new();
    assert!(ps.shutdown_server(None).is_ok());
    assert!(ps.server.is_none());
    assert!(ps.start_new_server(true, "d".to_string()).is_ok());
    assert!(ps.shutdown_server(None).is_ok());
    assert!(ps.server.is_none());
    assert_eq!(ps.current_port, 0);
    assert!(ps.start_new_server(true, "d".to_string()).is_ok());
    assert_eq!(ps.server_started(8888, Ok(())).unwrap(), "Success");
    assert!(ps.shutdown_server(Some(true)).is_ok());
    assert!(ps.server.is_none());
    assert_eq!(ps.current_port, 0);
    assert!(!ps.stop_sender);
    assert!(ps.start_new_server(true, "d".to_string()).is_ok());
    assert_eq!(ps.server_started(8888, Ok(())).unwrap(), "Success");
    assert_eq!(
        ps.shutdown_server(Some(false)).unwrap_err(),
        "Failed to send stop signal: receiver dropped"
    );
    assert!(ps.server.is_none());
    assert_eq!(ps.current_port, 0);
    assert!(!ps.stop_sender);
}

#[test]
fn a_pause_under_a_given_id() {
    let mut server = ServerBuilder::new().build("d".to_string());
    let t = request("http://h/login", "POST", &[("a", "b")]);
    let (id, event) =
        server.pause_traffic_with_id("p1".to_string(), &t, &b"{\"pw\":\"old\"}".to_vec(), true).unwrap();
    assert_eq!(id, "p1");
    assert_eq!(event.send_data.event_name, "pause-traffic");
    let (shown_id, data) = event.send_data.payload.data.unwrap();
    assert_eq!(shown_id.as_deref(), Some("p1"));
    assert_eq!(data.traffic.uri, "http://h/login");
    assert_eq!(data.traffic_type, "request");
    assert_eq!(data.body.unwrap().value, "{\"pw\":\"old\"}");
    assert_eq!(server.state.paused_traffic.entries.len(), 1);
    assert_eq!(server.state.paused_traffic.entries[0].id, "p1");
    assert_eq!(server.state.paused_traffic.entries[0].body, Some(b"{\"pw\":\"old\"}".to_vec()));
    assert!(!server.state.paused_traffic.entries[0].resumed);

    // the id is taken: nothing happens
    let u = request("http://h/other", "GET", &[]);
    assert!(server.pause_traffic_with_id("p1".to_string(), &u, &b"x".to_vec(), false).is_none());
    assert_eq!(server.state.paused_traffic.entries.len(), 1);
    assert_eq!(server.state.paused_traffic.entries[0].traffic.uri, "http://h/login");

    // another id is free
    let (id, event) = server.pause_traffic_with_id("p2".to_string(), &u, &b"x".to_vec(), false).unwrap();
    assert_eq!(id, "p2");
    assert_eq!(event.send_data.payload.data.unwrap().1.traffic_type, "response");
    assert_eq!(server.state.paused_traffic.entries.len(), 2);
}

#[test]
fn a_pause_on_an_empty_registry_always_succeeds() {
    for _ in 0..20 {
        let mut server = ServerBuilder::new().build("d".to_string());
        let t = request("http://h/x", "GET", &[]);
        assert!(server.state.paused_traffic.entries.is_empty());
        let id = server.state.pause(t.clone(), None).expect("no id is taken");
        assert!(server.state.paused_traffic.contains(&id));
        assert_eq!(server.state.paused_traffic.entries.len(), 1);

        let mut other = ServerBuilder::new().build("d".to_string());
        let (id, _) = other.pause_traffic(&t, &b"abc".to_vec(), true).expect("no id is taken");
        assert!(other.state.paused_traffic.contains(&id));
        assert_eq!(other.state.paused_traffic.entries.len(), 1);
    }
}

#[test]
fn the_uri_of_a_request_in_a_tunnel() {
    assert_eq!(inner_uri(true, "example.test:443", "/hello"), "https://example.test/hello");
    assert_eq!(inner_uri(true, "example.test:8443", "/hello"), "https://example.test:8443/hello");
    assert_eq!(inner_uri(true, "example.test:80", "/"), "https://example.test:80/");
    assert_eq!(inner_uri(false, "h:80", "/a?b=c"), "http://h/a?b=c");
    assert_eq!(inner_uri(false, "h:443", "/a"), "http://h:443/a");
    assert_eq!(inner_uri(false, "h", ""), "http://h");
    assert_eq!(inner_uri(true, "[::1]:443", "/x"), "https://[::1]/x");
    assert_eq!(inner_uri(true, ":443", "/x"), "https:///x");
    assert_eq!(inner_uri(false, "", "/x"), "http:///x");
}

#[test]
fn header_values_are_taken_by_their_characters() {
    let out = response_headers(&headers(&[
        ("a", "plain text"),
        ("b", "tab\tinside"),
        ("c", "line\nbreak"),
        ("d", "del\u{7f}"),
        ("e", "nul\u{0}"),
        ("f", "caf\u{e9} \u{65e5}\u{672c}"),
        ("g", ""),
        ("h", "\u{1f}"),
        ("i", " "),
    ]));
    let names: Vec<&str> = out.iter().map(|h| h.name.as_str()).collect();
    assert_eq!(names, vec!["a", "b", "f", "g", "i"]);
}

#[test]
fn plans_that_do_not_go_on_are_answered_with_500() {
    assert_eq!(plan_answer(RequestPlan::Reject), Some((500, "No reserver proxy url".to_string())));
    assert_eq!(
        plan_answer(RequestPlan::Refused),
        Some((500, "the request cannot be recorded".to_string()))
    );
    for plan in [
        RequestPlan::Tunnel,
        RequestPlan::Bypass,
        RequestPlan::Forward,
        RequestPlan::InspectBody,
        RequestPlan::Pause,
    ] {
        assert_eq!(plan_answer(plan), None);
    }
}

#[test]
fn the_store_answers_as_it_was_left() {
    let mut s = State::new(PrintMode::Nothing);
    for i in 0..50u64 {
        let head = s.add_traffic(request(&format!("http://h/{i}"), "GET", &[]), "s1").unwrap();
        assert_eq!(head.id, i);
        // what was stored is there at once, and nothing else has left
        for k in 0..=i {
            assert_eq!(s.get_traffic(k).unwrap().uri, format!("http://h/{k}"));
        }
        assert_eq!(s.list_heads("s1").len() as u64, i + 1);
    }
    assert!(s.delete_traffic(7).is_ok());
    assert_eq!(s.delete_traffic(7).unwrap_err(), "Traffic not found");
    assert!(s.get_traffic(7).is_err());
    assert_eq!(s.list_heads("s1").len(), 49);
    // an update of a kept gid changes that record alone
    let mut t = (*s.get_traffic(3).unwrap()).clone();
    t.set_response_head(201, "HTTP/1.1", headers(&[]), 5);
    assert!(s.update_traffic(&t, 3, "s1").is_some());
    assert_eq!(s.get_traffic(3).unwrap().status, Some(201));
    assert_eq!(s.get_traffic(4).unwrap().status, None);
    assert_eq!(s.list_heads("s1").len(), 49);
    // a deleted gid is not given out again
    let head = s.add_traffic(request("http://h/new", "GET", &[]), "s1").unwrap();
    assert_eq!(head.id, 50);
}
