//! The decisions of the connection state machine and of the request
//! pipeline. Sockets, TLS and the upstream client belong to the caller: it
//! hands in what it has read and is told what to do next.

use crate::bytes::copy_bytes;
use crate::codec::{
    decoded, encoded, encoding_of, handle_body, readable, repack_body, repacked, Encoding,
};
use crate::frontend_message::{Payload, SendData, Status};
use crate::models::ExternalProxy;
use crate::models::external_proxy::{
    check_proxy_config, first_entry, needs_proxy, proxy_target, proxy_uri, ProxyTarget,
};
use crate::models::map_local::{first_answering, match_map_local, MapLocal, MapLocalItem};
use crate::preview::{bytes_to_hex, hex_list, hex_list_of, hex_of, shown};
use crate::state::{
    body_hit_before, check_body_breakpoints, check_breakpoints, engine_verdict, new_pause_id,
    position, Breakpoint, BreakpointMatchResult, BreakpointsConfig, BreakpointView, HeadEvent,
    PausedView, State,
};
use crate::store::{cache_capacity, no_entries, settled, takes};
use crate::text::{
    chars_of, contains, contains_seq, decimal, decimal_chars, decimal_string, ends_with,
    eq_ignore_ascii_case, has_prefix, has_suffix, lowercase_of, same_ignoring_ascii_case,
    slice_chars, starts_with, str_eq, string_of, to_lowercase, trim_chars, trimmed,
};
use crate::traffic::{
    encoding_ext, encoding_ext_of, head_of, Body, Header, Headers, HeaderView, Traffic, TrafficHead,
    TrafficView, TransactionState,
};
use crate::utils::{ext_name, index_of, to_ext_name};
use std::sync::Arc;
use vstd::prelude::*;
use vstd::string::StringExecFns;

verus! {

/// How a finished transaction is written to the log.
#[derive(Debug, Clone, Copy, PartialEq, Eq, Structural)]
pub enum PrintMode {
    Nothing,
    Oneline,
    Markdown,
}

impl Default for PrintMode {
    fn default() -> (m: Self)
        ensures
            m == PrintMode::Markdown,
    {
        PrintMode::Markdown
    }
}

/// What a suspended transaction is shown with: the record, its decoded
/// body, and the direction (`"request"` or `"response"`).
#[derive(Debug)]
pub struct TrafficData {
    pub traffic: Arc<Traffic>,
    pub body: Option<Body>,
    pub traffic_type: String,
}

/// The event that tells the operator of a suspended transaction.
#[derive(Debug)]
pub struct NewPauseTrafficData {
    pub send_data: SendData<(Option<String>, TrafficData)>,
}

impl NewPauseTrafficData {
    /// The `pause-traffic` event for a pause id and what is shown with it.
    pub fn new(traffic_tuple: (Option<String>, TrafficData)) -> (r: Self)
        ensures
            r.send_data.event_name@ == "pause-traffic"@,
            r.send_data.payload.status == Status::Success,
            r.send_data.payload.message@ == "暂停规则匹配"@,
            r.send_data.payload.data == Some(traffic_tuple),
    {
        let payload = Payload {
            status: Status::Success,
            message: String::from_str("暂停规则匹配"),
            data: Some(traffic_tuple),
        };
        NewPauseTrafficData {
            send_data: SendData { event_name: String::from_str("pause-traffic"), payload },
        }
    }
}

/// The authority as a URI shows it: without the port where that is the
/// port of the scheme, 443 for HTTPS and 80 for HTTP.
pub open spec fn shown_authority(https: bool, authority: Seq<char>) -> Seq<char> {
    let port = if https {
        ":443"@
    } else {
        ":80"@
    };
    if has_suffix(authority, port) {
        authority.subrange(0, authority.len() - port.len())
    } else {
        authority
    }
}

/// The URI of a request that comes through a tunnel: the scheme of the
/// tunnel, the authority of its CONNECT as a URI shows it, and the path
/// and query of the request.
pub open spec fn inner_uri_of(https: bool, authority: Seq<char>, path_and_query: Seq<char>) -> Seq<
    char,
> {
    (if https {
        "https://"@
    } else {
        "http://"@
    }) + shown_authority(https, authority) + path_and_query
}

/// The URI of a request that comes through a tunnel.
pub fn inner_uri(https: bool, authority: &str, path_and_query: &str) -> (r: String)
    ensures
        r@ == inner_uri_of(https, authority@, path_and_query@),
{
    let a = chars_of(authority);
    let port = chars_of(if https {
        ":443"
    } else {
        ":80"
    });
    let shown = if ends_with(a.as_slice(), port.as_slice()) {
        slice_chars(a.as_slice(), 0, a.len() - port.len())
    } else {
        a
    };
    let host = string_of(shown.as_slice());
    let mut r = String::from_str(if https {
        "https://"
    } else {
        "http://"
    });
    r.append(host.as_str());
    r.append(path_and_query);
    r
}

/// The methods that the engine sends upstream.
#[derive(Debug, Clone, Copy, PartialEq, Eq, Structural)]
pub enum HttpMethod {
    Get,
    Post,
    Put,
    Delete,
    Head,
    Options,
    Patch,
    Trace,
}

/// The method that a name stands for, whatever its letter case.
pub open spec fn method_of(name: Seq<char>) -> Option<HttpMethod> {
    let n = lowercase_of(name);
    if n == "get"@ {
        Some(HttpMethod::Get)
    } else if n == "post"@ {
        Some(HttpMethod::Post)
    } else if n == "put"@ {
        Some(HttpMethod::Put)
    } else if n == "delete"@ {
        Some(HttpMethod::Delete)
    } else if n == "head"@ {
        Some(HttpMethod::Head)
    } else if n == "options"@ {
        Some(HttpMethod::Options)
    } else if n == "patch"@ {
        Some(HttpMethod::Patch)
    } else if n == "trace"@ {
        Some(HttpMethod::Trace)
    } else {
        None
    }
}

/// The method that `name` stands for; nothing for a name that the engine
/// does not send.
pub fn parse_method(name: &str) -> (r: Option<HttpMethod>)
    ensures
        r == method_of(name@),
{
    let lower = to_lowercase(name);
    let n = lower.as_str();
    if str_eq(n, "get") {
        Some(HttpMethod::Get)
    } else if str_eq(n, "post") {
        Some(HttpMethod::Post)
    } else if str_eq(n, "put") {
        Some(HttpMethod::Put)
    } else if str_eq(n, "delete") {
        Some(HttpMethod::Delete)
    } else if str_eq(n, "head") {
        Some(HttpMethod::Head)
    } else if str_eq(n, "options") {
        Some(HttpMethod::Options)
    } else if str_eq(n, "patch") {
        Some(HttpMethod::Patch)
    } else if str_eq(n, "trace") {
        Some(HttpMethod::Trace)
    } else {
        None
    }
}

/// What a tunnel carries, as far as its first bytes tell.
#[derive(Debug, Clone, Copy, PartialEq, Eq, Structural)]
pub enum TunnelKind {
    /// Plain HTTP: the tunnel starts with `GET `.
    PlainHttp,
    /// TLS: the tunnel starts with the bytes 0x16 0x03 of a ClientHello.
    Tls,
    /// Anything else: the bytes are copied to the target and back.
    Unknown,
}

/// What a tunnel with these first bytes carries.
pub open spec fn tunnel_kind(first: Seq<u8>) -> TunnelKind {
    if first.len() >= 4 && first[0] == 0x47 && first[1] == 0x45 && first[2] == 0x54 && first[3]
        == 0x20 {
        TunnelKind::PlainHttp
    } else if first.len() >= 2 && first[0] == 0x16 && first[1] == 0x03 {
        TunnelKind::Tls
    } else {
        TunnelKind::Unknown
    }
}

/// Tells from the first bytes of a tunnel what it carries.
pub fn classify_tunnel(first: &[u8]) -> (k: TunnelKind)
    ensures
        k == tunnel_kind(first@),
{
    if first.len() >= 4 && first[0] == 0x47 && first[1] == 0x45 && first[2] == 0x54 && first[3]
        == 0x20 {
        TunnelKind::PlainHttp
    } else if first.len() >= 2 && first[0] == 0x16 && first[1] == 0x03 {
        TunnelKind::Tls
    } else {
        TunnelKind::Unknown
    }
}

/// The error text of a tunnel whose protocol is not known.
pub open spec fn unknown_protocol_text(first: Seq<u8>) -> Seq<char> {
    "Unknown protocol, read '"@ + hex_list_of(first) + "' from upgraded connection"@
}

/// The error text of a tunnel whose protocol is not known.
pub fn unknown_protocol_error(first: &[u8]) -> (r: String)
    ensures
        r@ == unknown_protocol_text(first@),
{
    let mut text = String::from_str("Unknown protocol, read '");
    let list = hex_list(first);
    text.append(list.as_str());
    text.append("' from upgraded connection");
    text
}

/// The first header at or after `from` whose name is exactly `name`.
pub open spec fn first_exact(headers: Seq<HeaderView>, name: Seq<char>, from: int) -> Option<int>
    decreases headers.len() - from,
{
    if from < 0 || from >= headers.len() {
        None
    } else if headers[from].name == name {
        Some(from)
    } else {
        first_exact(headers, name, from + 1)
    }
}

/// The value of the first header named exactly `name`; empty without one.
pub open spec fn header_value(headers: Option<Seq<HeaderView>>, name: Seq<char>) -> Seq<char> {
    match headers {
        Some(hs) => match first_exact(hs, name, 0) {
            Some(i) => hs[i].value,
            None => Seq::empty(),
        },
        None => Seq::empty(),
    }
}

fn find_header(headers: &Headers, name: &str) -> (r: Option<usize>)
    ensures
        match r {
            Some(i) => first_exact(headers@, name@, 0) == Some(i as int) && i < headers.items.len()
                && headers@[i as int] == headers.items[i as int]@,
            None => first_exact(headers@, name@, 0) is None,
        },
{
    let mut i: usize = 0;
    while i < headers.items.len()
        invariant
            i <= headers.items.len(),
            first_exact(headers@, name@, 0) == first_exact(headers@, name@, i as int),
        decreases headers.items.len() - i,
    {
        assert(headers@[i as int] == headers.items[i as int]@);
        if str_eq(headers.items[i].name.as_str(), name) {
            return Some(i);
        }
        i += 1;
    }
    None
}

/// The value of the first header named exactly `name`; empty without one.
pub fn get_header_value(headers: &Option<Headers>, name: &str) -> (r: String)
    ensures
        r@ == header_value(headers.deep_view(), name@),
{
    match headers {
        Some(hs) => match find_header(hs, name) {
            Some(i) => hs.items[i].value.clone(),
            None => String::new(),
        },
        None => String::new(),
    }
}

/// The headers with the length of the body: the first header named
/// `content-length` gets the length in decimal; without one, such a header
/// is added at the end.
pub open spec fn with_length(headers: Seq<HeaderView>, len: nat) -> Seq<HeaderView> {
    match first_exact(headers, "content-length"@, 0) {
        Some(i) => headers.update(i, HeaderView { name: headers[i].name, value: decimal(len) }),
        None => headers.push(HeaderView { name: "content-length"@, value: decimal(len) }),
    }
}

/// The headers carry the length of the body.
pub proof fn lemma_with_length(headers: Seq<HeaderView>, len: nat)
    ensures
        header_value(Some(with_length(headers, len)), "content-length"@) == decimal(len),
{
    let after = with_length(headers, len);
    match first_exact(headers, "content-length"@, 0) {
        Some(i) => {
            lemma_first_exact_update(headers, "content-length"@, 0, i, decimal(len));
        },
        None => {
            lemma_first_exact_push(headers, "content-length"@, 0, decimal(len));
        },
    }
}

/// A new value for the first header of a name leaves it the first.
pub proof fn lemma_first_exact_update(
    headers: Seq<HeaderView>,
    name: Seq<char>,
    from: int,
    i: int,
    value: Seq<char>,
)
    requires
        0 <= from,
        first_exact(headers, name, from) == Some(i),
    ensures
        from <= i < headers.len(),
        headers[i].name == name,
        first_exact(headers.update(i, HeaderView { name: headers[i].name, value }), name, from)
            == Some(i),
    decreases headers.len() - from,
{
    if headers[from].name != name {
        lemma_first_exact_update(headers, name, from + 1, i, value);
    }
}

/// A header that is added where none had the name is the first of the
/// name.
pub proof fn lemma_first_exact_push(
    headers: Seq<HeaderView>,
    name: Seq<char>,
    from: int,
    value: Seq<char>,
)
    requires
        0 <= from <= headers.len(),
        first_exact(headers, name, from) is None,
    ensures
        first_exact(headers.push(HeaderView { name, value }), name, from) == Some(
            headers.len() as int,
        ),
    decreases headers.len() - from,
{
    if from < headers.len() {
        lemma_first_exact_push(headers, name, from + 1, value);
    }
}

/// Writes the length of the body into the headers.
pub fn set_content_length(headers: &mut Headers, len: usize)
    ensures
        final(headers)@ == with_length(old(headers)@, len as nat),
{
    let value = decimal_string(len as u64);
    let ghost before = headers@;
    match find_header(headers, "content-length") {
        Some(i) => {
            let kept = headers.items[i].name.clone();
            headers.items.set(i, Header { name: kept, value });
            assert(headers@ =~= before.update(
                i as int,
                HeaderView { name: before[i as int].name, value: decimal(len as nat) },
            ));
        },
        None => {
            headers.items.push(Header { name: String::from_str("content-length"), value });
            assert(headers@ =~= before.push(
                HeaderView { name: "content-length"@, value: decimal(len as nat) },
            ));
        },
    }
}

/// The MIME type that the headers declare: the value of `content-type` up
/// to its first semicolon, without the white space around it.
pub open spec fn mime_of(headers: Option<Seq<HeaderView>>) -> Seq<char> {
    let value = header_value(headers, "content-type"@);
    trimmed(value.subrange(0, index_of(value, ';', 0)))
}

/// The MIME type that the headers declare.
pub fn extract_mime(headers: &Option<Headers>) -> (r: String)
    ensures
        r@ == mime_of(headers.deep_view()),
{
    let value = get_header_value(headers, "content-type");
    let v = chars_of(value.as_str());
    let mut end: usize = 0;
    while end < v.len() && v[end] != ';'
        invariant
            end <= v.len(),
            index_of(v@, ';', 0) == index_of(v@, ';', end as int),
        decreases v.len() - end,
    {
        end += 1;
    }
    let head = slice_chars(v.as_slice(), 0, end);
    let kept = trim_chars(head.as_slice());
    string_of(kept.as_slice())
}

/// Decimal notation of a gid, filled up with zeros to five digits.
pub open spec fn padded(gid: nat) -> Seq<char> {
    let d = decimal(gid);
    if d.len() >= 5 {
        d
    } else {
        Seq::new((5 - d.len()) as nat, |i: int| '0') + d
    }
}

/// The name of the file that the body of a request is spooled to.
pub open spec fn req_spool_name(t: TrafficView) -> Seq<char> {
    padded(t.gid as nat) + "-req"@ + ext_name(mime_of(t.req_headers))
}

/// The name of the file that the body of a response is spooled to; it ends
/// in the suffix of the encoding under which the body comes.
pub open spec fn res_spool_name(t: TrafficView, encoding: Seq<char>) -> Seq<char> {
    padded(t.gid as nat) + "-res"@ + ext_name(mime_of(t.res_headers)) + encoding_ext(encoding)
}

fn padded_gid(gid: u64) -> (v: Vec<char>)
    ensures
        v@ == padded(gid as nat),
{
    let d = decimal_chars(gid);
    if d.len() >= 5 {
        return d;
    }
    let mut v: Vec<char> = Vec::new();
    let fill: usize = 5 - d.len();
    let mut i: usize = 0;
    while i < fill
        invariant
            i <= fill,
            v@ == Seq::new(i as nat, |k: int| '0'),
        decreases fill - i,
    {
        v.push('0');
        assert(v@ =~= Seq::new((i + 1) as nat, |k: int| '0'));
        i += 1;
    }
    let mut k: usize = 0;
    while k < d.len()
        invariant
            k <= d.len(),
            fill == 5 - d.len(),
            v@ == Seq::new(fill as nat, |i: int| '0') + d@.take(k as int),
        decreases d.len() - k,
    {
        v.push(d[k]);
        assert(d@.take(k + 1) =~= d@.take(k as int).push(d@[k as int]));
        k += 1;
    }
    assert(d@.take(d@.len() as int) =~= d@);
    v
}

/// The name of the file that the body of the request is spooled to.
pub fn req_body_file_name(traffic: &Traffic) -> (r: String)
    ensures
        r@ == req_spool_name(traffic@),
{
    let gid = padded_gid(traffic.gid);
    let mut name = string_of(gid.as_slice());
    name.append("-req");
    let mime = extract_mime(&traffic.req_headers);
    name.append(to_ext_name(mime.as_str()));
    name
}

/// The name of the file that the body of the response is spooled to.
pub fn res_body_file_name(traffic: &Traffic, encoding: &str) -> (r: String)
    ensures
        r@ == res_spool_name(traffic@, encoding@),
{
    let gid = padded_gid(traffic.gid);
    let mut name = string_of(gid.as_slice());
    name.append("-res");
    let mime = extract_mime(&traffic.res_headers);
    name.append(to_ext_name(mime.as_str()));
    name.append(encoding_ext_of(encoding));
    name
}

/// Whether a content type names a Protobuf body.
pub open spec fn protobuf_type(content_type: Seq<char>) -> bool {
    contains_seq(content_type, "application/protobuf"@) || contains_seq(
        content_type,
        "application/x-protobuffer"@,
    ) || contains_seq(content_type, "application/x-protobuf"@)
}

/// Whether the headers declare a Protobuf body.
pub fn is_protobuf_content(content_type: Option<&str>) -> (r: bool)
    ensures
        r == (content_type matches Some(t) && protobuf_type(t@)),
{
    match content_type {
        Some(t) => contains(t, "application/protobuf") || contains(t, "application/x-protobuffer")
            || contains(t, "application/x-protobuf"),
        None => false,
    }
}

/// The engine that is bound to a port: its state and the directory that
/// bodies are spooled to.
pub struct Server {
    pub state: State,
    pub temp_dir: String,
}

/// Collects what a server is made with.
pub struct ServerBuilder {
    print_mode: PrintMode,
}

/// The name of the directory that the process `pid` spools bodies to.
pub open spec fn temp_dir_name_of(pid: u32) -> Seq<char> {
    "ez-shark-"@ + decimal(pid as nat)
}

/// The name of the directory that the process `pid` spools bodies to.
pub fn temp_dir_name(pid: u32) -> (r: String)
    ensures
        r@ == temp_dir_name_of(pid),
{
    let mut name = String::from_str("ez-shark-");
    let number = decimal_string(pid as u64);
    name.append(number.as_str());
    name
}

impl ServerBuilder {
    /// A builder for a server that logs finished transactions as Markdown.
    pub fn new() -> (b: Self)
        ensures
            b.mode() == PrintMode::Markdown,
    {
        ServerBuilder { print_mode: PrintMode::Markdown }
    }

    /// How the server that is built logs finished transactions.
    pub closed spec fn mode(&self) -> PrintMode {
        self.print_mode
    }

    /// Chooses how finished transactions are logged.
    pub fn print_mode(self, print_mode: PrintMode) -> (b: Self)
        ensures
            b.mode() == print_mode,
    {
        ServerBuilder { print_mode }
    }

    /// A server with a fresh state that spools to `temp_dir`.
    pub fn build(self, temp_dir: String) -> (s: Server)
        ensures
            s.temp_dir == temp_dir,
            s.state.wf(),
            s.state.print_mode == self.mode(),
            cache_capacity(s.state.traffics) == crate::state::STORE_CAPACITY,
            s.state.entries() == no_entries(),
            settled(s.state.traffics),
            s.state.paused_traffic@.len() == 0,
            s.state.monitor_traffic@.len() == 0,
            s.state.next_id == 0,
            s.state.events@.len() == 0,
    {
        Server { state: State::new(self.print_mode), temp_dir }
    }
}

/// What is done with a request once its head is read.
#[derive(Debug, Clone, Copy, PartialEq, Eq, Structural)]
pub enum RequestPlan {
    /// The URI is relative: the answer is 500. While monitoring is on the
    /// request is recorded as failed.
    Reject,
    /// A CONNECT: the tunnel is opened.
    Tunnel,
    /// Monitoring is off: the request goes on untouched and unrecorded.
    Bypass,
    /// The request cannot be recorded: the answer is 500.
    Refused,
    /// Recorded, and no rule matches: the request goes on.
    Forward,
    /// Recorded, and rules match on the head: the body is read and shown
    /// to them.
    InspectBody,
    /// Recorded, and a rule matches in full: the body is read and the
    /// transaction is suspended.
    Pause,
}

/// What `handle` hands back: the plan, the record where there is one, the
/// head to publish where the request was recorded, and the rules that are
/// still to see the body.
#[derive(Debug)]
pub struct Handled {
    pub plan: RequestPlan,
    pub traffic: Option<Traffic>,
    pub head: Option<TrafficHead>,
    pub candidates: Vec<Breakpoint>,
}

/// What answers a request with a relative URI.
pub open spec fn no_reverse_proxy() -> Seq<char> {
    "No reserver proxy url"@
}

/// The record of a request whose head has been read.
pub open spec fn request_record(
    uri: Seq<char>,
    method: Seq<char>,
    headers: Seq<HeaderView>,
    now: i64,
) -> TrafficView {
    TrafficView { req_headers: Some(headers), ..TrafficView::opened(uri, method, now) }
}

/// The plan for a request.
pub open spec fn request_plan(
    uri: Seq<char>,
    method: Seq<char>,
    monitoring: bool,
    can_record: bool,
    verdict: Option<(Seq<BreakpointView>, BreakpointMatchResult)>,
) -> RequestPlan {
    if has_prefix(uri, "/"@) {
        RequestPlan::Reject
    } else if method == "CONNECT"@ {
        RequestPlan::Tunnel
    } else if !monitoring {
        RequestPlan::Bypass
    } else if !can_record {
        RequestPlan::Refused
    } else {
        match verdict {
            None => RequestPlan::Forward,
            Some((_, BreakpointMatchResult::FullMatch)) => RequestPlan::Pause,
            Some(_) => RequestPlan::InspectBody,
        }
    }
}

/// What answers a request that cannot be recorded.
pub open spec fn cannot_record() -> Seq<char> {
    "the request cannot be recorded"@
}

/// The answer to a request that does not go on: status 500 and the reason
/// as the body for a request that is rejected or refused; nothing for a
/// plan under which the request goes on.
pub fn plan_answer(plan: RequestPlan) -> (r: Option<(u16, String)>)
    ensures
        match plan {
            RequestPlan::Reject => r matches Some(a) && a.0 == 500 && a.1@ == no_reverse_proxy(),
            RequestPlan::Refused => r matches Some(a) && a.0 == 500 && a.1@ == cannot_record(),
            _ => r is None,
        },
{
    match plan {
        RequestPlan::Reject => Some((500, String::from_str("No reserver proxy url"))),
        RequestPlan::Refused => Some((500, String::from_str("the request cannot be recorded"))),
        _ => None,
    }
}

/// The rules of a verdict.
pub open spec fn verdict_rules(
    verdict: Option<(Seq<BreakpointView>, BreakpointMatchResult)>,
) -> Seq<BreakpointView> {
    match verdict {
        Some((rules, _)) => rules,
        None => Seq::empty(),
    }
}

impl RequestPlan {
    /// The plans of a request that goes on after it has been recorded.
    pub open spec fn recorded(self) -> bool {
        self == RequestPlan::Forward || self == RequestPlan::InspectBody || self
            == RequestPlan::Pause
    }
}

impl Server {
    /// The state of the engine.
    pub fn state(&self) -> (r: &State)
        ensures
            *r == self.state,
    {
        &self.state
    }

    /// Takes the head of a request: opens its record, stores it while
    /// monitoring is on, and tries the breakpoint rules on it. A request
    /// with a relative URI is rejected; while monitoring is on its record
    /// is stored as failed, and the head that opens it is handed out.
    pub fn handle(
        &mut self,
        uri: &str,
        method: &str,
        headers: Headers,
        now: i64,
        session_id: &str,
        breakpoints: &BreakpointsConfig,
    ) -> (r: Handled)
        ensures
            ({
                let record = request_record(uri@, method@, headers@, now);
                let id = old(self).state.next_id;
                let monitoring = old(self).state.monitor_traffic@.len() > 0;
                let opened = TrafficView { gid: id, session_id: session_id@, ..record };
                let stored = if r.plan == RequestPlan::Reject {
                    opened.failed(no_reverse_proxy())
                } else {
                    opened
                };
                let verdict = engine_verdict(
                    breakpoints.breakpoints.deep_view(),
                    breakpoints.tool_enabled,
                    opened,
                    "request"@,
                );
                let recorded = r.plan.recorded() || (r.plan == RequestPlan::Reject && monitoring && id
                    < u64::MAX);
                &&& r.plan == request_plan(uri@, method@, monitoring, id < u64::MAX, verdict)
                &&& recorded ==> {
                    &&& r.traffic is Some
                    &&& r.traffic->0@ == stored
                    &&& r.head is Some
                    &&& r.head->0@ == head_of(stored, id, session_id@)
                    &&& final(self).state.next_id == id + 1
                    &&& final(self).state.events@ == old(self).state.events@.push(
                        HeadEvent::Opened(id),
                    )
                    &&& final(self).state.entries().submap_of(
                        old(self).state.entries().insert(id, stored),
                    )
                    &&& takes(old(self).state.traffics, id) ==> final(self).state.entries()
                        == old(self).state.entries().insert(id, stored) && settled(
                        final(self).state.traffics,
                    )
                }
                &&& !recorded ==> r.head is None && final(self).state.next_id == id
                    && final(self).state.events@ == old(self).state.events@
                    && final(self).state.traffics == old(self).state.traffics
                &&& !recorded && r.plan == RequestPlan::Reject ==> r.traffic is None
                &&& !recorded && r.plan != RequestPlan::Reject ==> r.traffic is Some && r.traffic->0@
                    == record
                &&& r.plan == RequestPlan::InspectBody ==> r.candidates.deep_view() == verdict_rules(
                    verdict,
                )
                &&& r.plan != RequestPlan::InspectBody ==> r.candidates.len() == 0
            }),
            final(self).state.paused_traffic == old(self).state.paused_traffic,
            final(self).state.monitor_traffic == old(self).state.monitor_traffic,
            final(self).temp_dir == old(self).temp_dir,
            cache_capacity(final(self).state.traffics) == cache_capacity(old(self).state.traffics),
            old(self).state.wf() ==> final(self).state.wf(),
    {
        let mut traffic = Traffic::new(uri, method, now);
        traffic.set_req_headers(headers);
        if starts_with(uri, "/") {
            if !self.state.is_monitor_traffic() || self.state.next_id == u64::MAX {
                return Handled {
                    plan: RequestPlan::Reject,
                    traffic: None,
                    head: None,
                    candidates: Vec::new(),
                };
            }
            let mut failed = traffic.clone();
            failed.gid = self.state.next_id;
            failed.session_id = String::from_str(session_id);
            failed.fail("No reserver proxy url");
            traffic.fail("No reserver proxy url");
            return match self.state.add_traffic(traffic, session_id) {
                Ok(head) => Handled {
                    plan: RequestPlan::Reject,
                    traffic: Some(failed),
                    head: Some(head),
                    candidates: Vec::new(),
                },
                Err(_) => Handled {
                    plan: RequestPlan::Reject,
                    traffic: None,
                    head: None,
                    candidates: Vec::new(),
                },
            };
        }
        if str_eq(method, "CONNECT") {
            return Handled {
                plan: RequestPlan::Tunnel,
                traffic: Some(traffic),
                head: None,
                candidates: Vec::new(),
            };
        }
        if !self.state.is_monitor_traffic() {
            return Handled {
                plan: RequestPlan::Bypass,
                traffic: Some(traffic),
                head: None,
                candidates: Vec::new(),
            };
        }
        if self.state.next_id == u64::MAX {
            return Handled {
                plan: RequestPlan::Refused,
                traffic: Some(traffic),
                head: None,
                candidates: Vec::new(),
            };
        }
        let mut stored = traffic.clone();
        stored.gid = self.state.next_id;
        stored.session_id = String::from_str(session_id);
        let head = match self.state.add_traffic(traffic, session_id) {
            Ok(head) => head,
            Err(_) => {
                return Handled {
                    plan: RequestPlan::Refused,
                    traffic: Some(stored),
                    head: None,
                    candidates: Vec::new(),
                };
            },
        };
        match check_breakpoints(breakpoints, &stored, "request") {
            None => Handled {
                plan: RequestPlan::Forward,
                traffic: Some(stored),
                head: Some(head),
                candidates: Vec::new(),
            },
            Some((rules, verdict)) => match verdict {
                BreakpointMatchResult::FullMatch => Handled {
                    plan: RequestPlan::Pause,
                    traffic: Some(stored),
                    head: Some(head),
                    candidates: Vec::new(),
                },
                _ => Handled {
                    plan: RequestPlan::InspectBody,
                    traffic: Some(stored),
                    head: Some(head),
                    candidates: rules,
                },
            },
        }
    }
}

/// How the reading of a body went.
#[derive(Debug)]
pub enum BodyRead {
    /// The whole body.
    Read(Vec<u8>),
    /// The body did not end in time.
    TimedOut,
    /// The reading failed, with the words of the failure.
    Failed(String),
}

/// The bytes of a body after its reading: a body that did not end in time
/// counts as empty; a failure of the reading is an error.
pub fn get_body_bytes(read: BodyRead) -> (r: Result<Vec<u8>, String>)
    ensures
        match read {
            BodyRead::Read(bytes) => r == Ok::<Vec<u8>, String>(bytes),
            BodyRead::TimedOut => r matches Ok(bytes) && bytes@.len() == 0,
            BodyRead::Failed(why) => r matches Err(e) && e@ == "Error collecting body: "@ + why@,
        },
{
    match read {
        BodyRead::Read(bytes) => Ok(bytes),
        BodyRead::TimedOut => Ok(Vec::new()),
        BodyRead::Failed(why) => {
            let mut e = String::from_str("Error collecting body: ");
            e.append(why.as_str());
            Err(e)
        },
    }
}

/// The body of one direction as the rules see it.
#[derive(Debug)]
pub struct BodyData {
    /// The decoded bytes.
    pub bytes: Vec<u8>,
    /// The body as it is shown.
    pub content: Body,
    /// The value of `content-encoding`; empty without one.
    pub content_encoding: String,
}

/// The headers of a direction.
pub open spec fn direction_headers(t: TrafficView, request: bool) -> Option<Seq<HeaderView>> {
    if request {
        t.req_headers
    } else {
        t.res_headers
    }
}

/// The bytes of a body as the rules see them: decoded where the headers name
/// an encoding and the decoder accepts the bytes, else as they came.
pub open spec fn seen_bytes(t: TrafficView, request: bool, raw: Seq<u8>) -> Seq<u8> {
    let encoding = header_value(direction_headers(t, request), "content-encoding"@);
    if encoding.len() > 0 {
        readable(encoding, raw)
    } else {
        raw
    }
}

/// Decodes the body of a direction by the `content-encoding` of its
/// headers.
pub fn get_body_data(raw: Vec<u8>, traffic: &Traffic, request: bool) -> (r: BodyData)
    ensures
        r.content_encoding@ == header_value(
            direction_headers(traffic@, request),
            "content-encoding"@,
        ),
        r.bytes@ == seen_bytes(traffic@, request, raw@),
        (r.content.encode@, r.content.value@) == shown(r.bytes@),
        r.content.size == r.bytes@.len(),
{
    let content_encoding = if request {
        get_header_value(&traffic.req_headers, "content-encoding")
    } else {
        get_header_value(&traffic.res_headers, "content-encoding")
    };
    let bytes = if !content_encoding.as_str().is_empty() {
        handle_body(raw, content_encoding.as_str())
    } else {
        raw
    };
    let content = Body::bytes(bytes.as_slice());
    BodyData { bytes, content, content_encoding }
}

/// What is done with a transaction once the body of a direction is read.
#[derive(Debug)]
pub struct BodyStep {
    /// Whether the transaction is suspended.
    pub pause: bool,
    /// The bytes that are shown, and that go on if nothing changes them.
    pub bytes: Vec<u8>,
    /// The encoding under which the body came; empty where the body was not
    /// looked at.
    pub content_encoding: String,
}

/// The direction that a word names.
pub open spec fn direction_word(request: bool) -> Seq<char> {
    if request {
        "request"@
    } else {
        "response"@
    }
}

/// Whether a transaction is suspended after the body of a direction is
/// read: always where a rule matched in full, and where rules matched on the
/// head if the shown body contains the body text of one of them.
pub open spec fn pauses(
    verdict: BreakpointMatchResult,
    candidates: Seq<BreakpointView>,
    bytes: Seq<u8>,
    request: bool,
) -> bool {
    match verdict {
        BreakpointMatchResult::FullMatch => true,
        BreakpointMatchResult::HeaderOnlyMatch => body_hit_before(
            candidates,
            shown(bytes).1,
            direction_word(request),
            candidates.len() as int,
        ),
        BreakpointMatchResult::NoMatch => false,
    }
}

/// The record with the hex preview of a direction.
pub open spec fn with_hex(t: TrafficView, request: bool, bytes: Seq<u8>) -> TrafficView {
    if t.terminal() {
        t
    } else if request {
        TrafficView { req_body_hex: Some(hex_of(bytes)), ..t }
    } else {
        TrafficView { res_body_hex: Some(hex_of(bytes)), ..t }
    }
}

/// Takes the body of a direction: where rules matched, the body is decoded
/// and shown to them; the record gets the hex preview of what was looked at.
pub fn after_body(
    traffic: &mut Traffic,
    verdict: BreakpointMatchResult,
    candidates: &Vec<Breakpoint>,
    raw: Vec<u8>,
    request: bool,
) -> (r: BodyStep)
    ensures
        verdict == BreakpointMatchResult::NoMatch ==> r.bytes@ == raw@ && r.content_encoding@.len()
            == 0,
        verdict != BreakpointMatchResult::NoMatch ==> r.bytes@ == seen_bytes(
            old(traffic)@,
            request,
            raw@,
        ) && r.content_encoding@ == header_value(
            direction_headers(old(traffic)@, request),
            "content-encoding"@,
        ),
        r.pause == pauses(verdict, candidates.deep_view(), r.bytes@, request),
        final(traffic)@ == with_hex(old(traffic)@, request, r.bytes@),
        old(traffic)@.wf() ==> final(traffic)@.wf(),
{
    let word = if request {
        "request"
    } else {
        "response"
    };
    let (bytes, content_encoding, pause) = match verdict {
        BreakpointMatchResult::NoMatch => (raw, String::new(), false),
        BreakpointMatchResult::FullMatch => {
            let data = get_body_data(raw, traffic, request);
            (data.bytes, data.content_encoding, true)
        },
        BreakpointMatchResult::HeaderOnlyMatch => {
            let data = get_body_data(raw, traffic, request);
            let hit = check_body_breakpoints(&data.content, candidates, word);
            (data.bytes, data.content_encoding, hit)
        },
    };
    let hex = bytes_to_hex(bytes.as_slice());
    if request {
        traffic.set_req_body_hex(hex);
    } else {
        traffic.set_res_body_hex(hex);
    }
    BodyStep { pause, bytes, content_encoding }
}

/// The record with the length of a body written into the headers of a
/// direction. A record without headers in that direction, or a closed one,
/// stays as it is.
pub open spec fn with_body_length(t: TrafficView, request: bool, len: nat) -> TrafficView {
    if t.terminal() {
        t
    } else if request {
        match t.req_headers {
            Some(h) => TrafficView { req_headers: Some(with_length(h, len)), ..t },
            None => t,
        }
    } else {
        match t.res_headers {
            Some(h) => TrafficView { res_headers: Some(with_length(h, len)), ..t },
            None => t,
        }
    }
}

/// The record that goes on after a pause: the one in the registry, as the
/// changes have left it; the one that was suspended where the registry has
/// lost it.
pub open spec fn resumed_record(
    registry: Seq<PausedView>,
    id: Seq<char>,
    traffic: TrafficView,
) -> TrafficView {
    match position(registry, id, 0) {
        Some(i) => registry[i].traffic,
        None => traffic,
    }
}

/// The body that goes on after a pause, before it is encoded again.
pub open spec fn resumed_body(registry: Seq<PausedView>, id: Seq<char>, body: Seq<u8>) -> Seq<u8> {
    match position(registry, id, 0) {
        Some(i) => match registry[i].body {
            Some(b) => b,
            None => body,
        },
        None => body,
    }
}

impl Server {
    /// Suspends a transaction under `id`: it is put into the registry under
    /// that id, and the event that tells the operator is made, with the id,
    /// the record, the body as it is shown and the direction. Where the id
    /// is taken nothing happens and nothing is given back.
    pub fn pause_traffic_with_id(
        &mut self,
        id: String,
        traffic: &Traffic,
        body: &Vec<u8>,
        request: bool,
    ) -> (r: Option<(String, NewPauseTrafficData)>)
        ensures
            r is Some <==> position(old(self).state.paused_traffic@, id@, 0) is None,
            match r {
                Some((given, event)) => {
                    &&& given@ == id@
                    &&& final(self).state.paused_traffic@ == old(self).state.paused_traffic@.push(
                        PausedView { id: id@, traffic: traffic@, body: Some(body@), resumed: false },
                    )
                    &&& event.send_data.event_name@ == "pause-traffic"@
                    &&& event.send_data.payload.status == Status::Success
                    &&& event.send_data.payload.data matches Some((shown_id, data))
                    &&& shown_id matches Some(text)
                    &&& text@ == id@
                    &&& data.traffic@ == traffic@
                    &&& data.traffic_type@ == direction_word(request)
                    &&& data.body matches Some(b)
                    &&& (b.encode@, b.value@) == shown(body@)
                },
                None => final(self).state.paused_traffic@ == old(self).state.paused_traffic@,
            },
            final(self).state.traffics == old(self).state.traffics,
            final(self).state.monitor_traffic == old(self).state.monitor_traffic,
            final(self).state.next_id == old(self).state.next_id,
            final(self).state.events == old(self).state.events,
            final(self).temp_dir == old(self).temp_dir,
            old(self).state.wf() ==> final(self).state.wf(),
    {
        let kept = copy_bytes(body.as_slice());
        assert(kept.deep_view() =~= body@);
        if !self.state.pause_with_id(id.as_str(), traffic.clone(), Some(kept)) {
            return None;
        }
        let word = if request {
            "request"
        } else {
            "response"
        };
        let data = TrafficData {
            traffic: Arc::new(traffic.clone()),
            body: Some(Body::bytes(body.as_slice())),
            traffic_type: String::from_str(word),
        };
        let event = NewPauseTrafficData::new((Some(id.clone()), data));
        Some((id, event))
    }

    /// Suspends a transaction: it is put into the registry under a fresh
    /// pause id, and the event that tells the operator is made. Nothing
    /// happens where the fresh id is already taken. The id is drawn at
    /// random, so only the registry decides when success is certain: while
    /// it holds no transaction no id is taken, and the transaction is
    /// suspended whatever id is drawn. What happens for each id is what
    /// `pause_traffic_with_id` says.
    pub fn pause_traffic(&mut self, traffic: &Traffic, body: &Vec<u8>, request: bool) -> (r: Option<
        (String, NewPauseTrafficData),
    >)
        ensures
            match r {
                Some((id, event)) => {
                    &&& position(old(self).state.paused_traffic@, id@, 0) is None
                    &&& final(self).state.paused_traffic@ == old(self).state.paused_traffic@.push(
                        PausedView { id: id@, traffic: traffic@, body: Some(body@), resumed: false },
                    )
                    &&& event.send_data.event_name@ == "pause-traffic"@
                    &&& event.send_data.payload.status == Status::Success
                    &&& event.send_data.payload.data matches Some((shown_id, data))
                    &&& shown_id matches Some(text)
                    &&& text@ == id@
                    &&& data.traffic@ == traffic@
                    &&& data.traffic_type@ == direction_word(request)
                    &&& data.body matches Some(b)
                    &&& (b.encode@, b.value@) == shown(body@)
                },
                None => final(self).state.paused_traffic@ == old(self).state.paused_traffic@,
            },
            old(self).state.paused_traffic@.len() == 0 ==> r is Some,
            final(self).state.traffics == old(self).state.traffics,
            final(self).state.monitor_traffic == old(self).state.monitor_traffic,
            final(self).state.next_id == old(self).state.next_id,
            final(self).state.events == old(self).state.events,
            final(self).temp_dir == old(self).temp_dir,
            old(self).state.wf() ==> final(self).state.wf(),
    {
        let id = new_pause_id();
        self.pause_traffic_with_id(id, traffic, body, request)
    }

    /// Lets a suspended transaction go on: it leaves the registry, its body
    /// is encoded again under the encoding that it came with, and the
    /// headers of its direction get the length of what goes on. The body
    /// that goes on decodes to the body that was left in the registry,
    /// unless the encoder failed and that body goes on as it is.
    pub fn resume_traffic(
        &mut self,
        id: &str,
        traffic: Traffic,
        body: Vec<u8>,
        content_encoding: &str,
        request: bool,
    ) -> (r: (Traffic, Vec<u8>))
        ensures
            ({
                let registry = old(self).state.paused_traffic@;
                let chosen = resumed_body(registry, id@, body@);
                &&& r.1@ == repacked(chosen, Some(content_encoding@))
                &&& encoded(encoding_of(content_encoding@), chosen) is Some ==> decoded(
                    encoding_of(content_encoding@),
                    r.1@,
                ) == Some(chosen)
                &&& r.1@ == chosen || decoded(encoding_of(content_encoding@), r.1@) == Some(chosen)
                &&& encoding_of(content_encoding@) == Encoding::Identity ==> r.1@ == chosen
                &&& r.0@ == with_body_length(
                    resumed_record(registry, id@, traffic@),
                    request,
                    r.1@.len(),
                )
                &&& match position(registry, id@, 0) {
                    Some(i) => final(self).state.paused_traffic@ == registry.remove(i),
                    None => final(self).state.paused_traffic@ == registry,
                }
            }),
            final(self).state.traffics == old(self).state.traffics,
            final(self).state.monitor_traffic == old(self).state.monitor_traffic,
            final(self).state.next_id == old(self).state.next_id,
            final(self).state.events == old(self).state.events,
            final(self).temp_dir == old(self).temp_dir,
            old(self).state.wf() ==> final(self).state.wf(),
    {
        let ghost registry = self.state.paused_traffic@;
        let ghost given = body@;
        let (mut record, chosen) = match self.state.paused_traffic.take(id) {
            Some(info) => {
                let b = match info.body {
                    Some(b) => b,
                    None => body,
                };
                (info.traffic, b)
            },
            None => (traffic, body),
        };
        let ghost plain = chosen@;
        let packed = repack_body(chosen, Some(content_encoding));
        assert(plain =~= resumed_body(registry, id@, given));
        assert(Some(content_encoding).deep_view() == Some(content_encoding@));
        if !record.transaction_state.is_terminal() {
            if request {
                if let Some(mut headers) = record.req_headers.take() {
                    set_content_length(&mut headers, packed.len());
                    record.req_headers = Some(headers);
                }
            } else {
                if let Some(mut headers) = record.res_headers.take() {
                    set_content_length(&mut headers, packed.len());
                    record.res_headers = Some(headers);
                }
            }
        }
        (record, packed)
    }

    /// Fails a transaction with an error: where it is recorded, the error is
    /// added to its record, the record is stored as failed, and its last
    /// head is handed out. The answer to the client is 500 in any case, with
    /// the error as its body.
    pub fn internal_server_error(
        &mut self,
        error: &str,
        traffic: &mut Traffic,
        head_id: Option<u64>,
        session_id: &str,
    ) -> (r: ErrorResponse)
        ensures
            r.status == 500,
            r.body@ == error@,
            head_id is None ==> r.head is None && final(traffic)@ == old(traffic)@
                && final(self).state.traffics == old(self).state.traffics
                && final(self).state.events@ == old(self).state.events@,
            head_id matches Some(id) ==> {
                let failed = old(traffic)@.failed(error@);
                let published = failed.valid && id < old(self).state.next_id;
                &&& final(traffic)@ == failed
                &&& published ==> {
                    &&& r.head is Some
                    &&& r.head->0@ == head_of(failed, id, session_id@)
                    &&& final(self).state.events@ == old(self).state.events@.push(
                        HeadEvent::Updated(id),
                    )
                    &&& final(self).state.entries().submap_of(
                        old(self).state.entries().insert(id, failed),
                    )
                    &&& takes(old(self).state.traffics, id) ==> final(self).state.entries()
                        == old(self).state.entries().insert(id, failed) && settled(
                        final(self).state.traffics,
                    )
                }
                &&& !published ==> r.head is None && final(self).state.events@
                    == old(self).state.events@ && final(self).state.traffics
                    == old(self).state.traffics
            },
            final(self).state.paused_traffic == old(self).state.paused_traffic,
            final(self).state.monitor_traffic == old(self).state.monitor_traffic,
            final(self).state.next_id == old(self).state.next_id,
            final(self).temp_dir == old(self).temp_dir,
            cache_capacity(final(self).state.traffics) == cache_capacity(old(self).state.traffics),
            old(self).state.wf() ==> final(self).state.wf(),
            old(traffic)@.wf() ==> final(traffic)@.wf(),
    {
        let head = match head_id {
            Some(id) => {
                traffic.fail(error);
                self.state.update_traffic(traffic, id, session_id)
            },
            None => None,
        };
        ErrorResponse { status: 500, body: String::from_str(error), head }
    }
}

/// The answer to a client whose transaction has failed: the status, the
/// error as the body, and the head to publish where the transaction is
/// recorded.
#[derive(Debug)]
pub struct ErrorResponse {
    pub status: u16,
    pub body: String,
    pub head: Option<TrafficHead>,
}

/// The name under which the http crate takes a header name: the name in
/// its canonical spelling; nothing where the crate refuses the name.
pub uninterp spec fn header_name_accepted(name: Seq<char>) -> Option<Seq<char>>;

/// A character that may stand in a header value: a tab, or any character
/// from the space on but DEL.
pub open spec fn value_char(c: char) -> bool {
    c == '\t' || (c >= ' ' && c != '\u{7f}')
}

/// Whether the http crate takes a text as a header value: every character
/// of it may stand in one.
pub open spec fn header_value_accepted(value: Seq<char>) -> bool {
    forall|i: int| 0 <= i < value.len() ==> value_char(#[trigger] value[i])
}

/// Trusted: `HeaderName::from_bytes` of the http crate, on the bytes of the
/// name. The result is named, not described.
#[verifier::external_body]
fn header_name(name: &str) -> (r: Option<String>)
    ensures
        r.deep_view() == header_name_accepted(name@),
{
    match http::header::HeaderName::from_bytes(name.as_bytes()) {
        Ok(n) => Some(n.as_str().to_string()),
        Err(_) => None,
    }
}

/// Trusted: `HeaderValue::from_str` of the http crate. It accepts a text
/// exactly where each byte of it is a tab, or at least 32 and not 127; the
/// bytes of a character beyond ASCII are all above 127.
#[verifier::external_body]
fn header_value_ok(value: &str) -> (r: bool)
    ensures
        r == header_value_accepted(value@),
{
    http::header::HeaderValue::from_str(value).is_ok()
}

/// The headers among the first `n` that can be sent, each under the
/// canonical spelling of its name.
pub open spec fn sendable_headers(headers: Seq<HeaderView>, n: int) -> Seq<HeaderView>
    decreases n,
{
    if n <= 0 || n > headers.len() {
        Seq::empty()
    } else {
        let rest = sendable_headers(headers, n - 1);
        let h = headers[n - 1];
        match header_name_accepted(h.name) {
            Some(name) => if header_value_accepted(h.value) {
                rest.push(HeaderView { name, value: h.value })
            } else {
                rest
            },
            None => rest,
        }
    }
}

/// The headers that can be sent, in their order.
pub fn response_headers(headers: &Headers) -> (r: Vec<Header>)
    ensures
        r.deep_view() == sendable_headers(headers@, headers@.len() as int),
{
    let mut out: Vec<Header> = Vec::new();
    let mut i: usize = 0;
    while i < headers.items.len()
        invariant
            i <= headers.items.len(),
            out.deep_view() == sendable_headers(headers@, i as int),
        decreases headers.items.len() - i,
    {
        let h = &headers.items[i];
        assert(headers@[i as int] == h@);
        let ghost before = out.deep_view();
        match header_name(h.name.as_str()) {
            Some(name) => {
                if header_value_ok(h.value.as_str()) {
                    let ghost canonical = name@;
                    out.push(Header { name, value: h.value.clone() });
                    assert(out.deep_view() =~= before.push(
                        HeaderView { name: canonical, value: h.value@ },
                    ));
                }
            },
            None => {},
        }
        i += 1;
    }
    out
}

/// Whether a status code can be sent: a number of three digits.
pub open spec fn valid_status(status: Option<u16>) -> bool {
    status matches Some(code) && 100 <= code <= 999
}

/// What `process_proxy_res` hands back: the verdict of the rules on the
/// response head, the rules that are still to see the body, the head to
/// publish, and the encoding under which the body comes.
#[derive(Debug)]
pub struct ResponseHandled {
    pub verdict: BreakpointMatchResult,
    pub candidates: Vec<Breakpoint>,
    pub head: Option<TrafficHead>,
    pub encoding: String,
}

/// The verdict on a response head: none where the response is neither
/// monitored nor recorded, else the verdict of the rules.
pub open spec fn response_verdict(
    looked: bool,
    verdict: Option<(Seq<BreakpointView>, BreakpointMatchResult)>,
) -> BreakpointMatchResult {
    if !looked {
        BreakpointMatchResult::NoMatch
    } else {
        match verdict {
            Some((_, v)) => v,
            None => BreakpointMatchResult::NoMatch,
        }
    }
}

/// What goes back to the client.
#[derive(Debug)]
pub struct ResponseOut {
    pub status: u16,
    pub headers: Vec<Header>,
    pub head: Option<TrafficHead>,
}

/// What is answered for a status that cannot be sent.
pub open spec fn invalid_status() -> Seq<char> {
    "Invalid status code"@
}

/// The record of a response whose body goes back to the client.
pub open spec fn response_sent(
    t: TrafficView,
    spool_path: Option<Seq<char>>,
    recorded: bool,
    now: i64,
) -> TrafficView {
    let spooled = match spool_path {
        Some(p) if !t.terminal() => TrafficView { res_body_file: Some(p), ..t },
        _ => t,
    };
    if recorded {
        spooled.streamed(now)
    } else {
        spooled
    }
}

impl Server {
    /// Takes the head of a response: the record enters `Responding`, its
    /// head is published where the transaction is recorded, and the
    /// breakpoint rules are tried on it.
    pub fn process_proxy_res(
        &mut self,
        traffic: &mut Traffic,
        head_id: Option<u64>,
        status: u16,
        http_version: &str,
        headers: Headers,
        now: i64,
        session_id: &str,
        breakpoints: &BreakpointsConfig,
    ) -> (r: ResponseHandled)
        ensures
            ({
                let responded = old(traffic)@.responded(status, http_version@, headers@, now);
                let verdict = engine_verdict(
                    breakpoints.breakpoints.deep_view(),
                    breakpoints.tool_enabled,
                    responded,
                    "response"@,
                );
                let looked = old(self).state.monitor_traffic@.len() > 0 || head_id is Some;
                let published = head_id is Some && responded.valid && head_id->0 < old(self).state.next_id;
                &&& final(traffic)@ == responded
                &&& r.encoding@ == header_value(responded.res_headers, "content-encoding"@)
                &&& r.verdict == response_verdict(looked, verdict)
                &&& r.verdict == BreakpointMatchResult::HeaderOnlyMatch ==> r.candidates.deep_view()
                    == verdict_rules(verdict)
                &&& r.verdict != BreakpointMatchResult::HeaderOnlyMatch ==> r.candidates.len() == 0
                &&& published ==> r.head is Some && r.head->0@ == head_of(
                    responded,
                    head_id->0,
                    session_id@,
                ) && final(self).state.events@ == old(self).state.events@.push(
                    HeadEvent::Updated(head_id->0),
                )
                &&& !published ==> r.head is None && final(self).state.events@ == old(self).state.events@
            }),
            final(self).state.traffics == old(self).state.traffics,
            final(self).state.paused_traffic == old(self).state.paused_traffic,
            final(self).state.monitor_traffic == old(self).state.monitor_traffic,
            final(self).state.next_id == old(self).state.next_id,
            final(self).temp_dir == old(self).temp_dir,
            old(self).state.wf() ==> final(self).state.wf(),
            old(traffic)@.wf() ==> final(traffic)@.wf(),
    {
        traffic.set_response_head(status, http_version, headers, now);
        let head = match head_id {
            Some(id) => match self.state.create_traffic_head(traffic, id, session_id) {
                Ok(head) => Some(head),
                Err(_) => None,
            },
            None => None,
        };
        let encoding = get_header_value(&traffic.res_headers, "content-encoding");
        if !self.state.is_monitor_traffic() && head_id.is_none() {
            return ResponseHandled {
                verdict: BreakpointMatchResult::NoMatch,
                candidates: Vec::new(),
                head,
                encoding,
            };
        }
        match check_breakpoints(breakpoints, traffic, "response") {
            Some((rules, verdict)) => match verdict {
                BreakpointMatchResult::HeaderOnlyMatch => ResponseHandled {
                    verdict,
                    candidates: rules,
                    head,
                    encoding,
                },
                _ => ResponseHandled { verdict, candidates: Vec::new(), head, encoding },
            },
            None => ResponseHandled {
                verdict: BreakpointMatchResult::NoMatch,
                candidates: Vec::new(),
                head,
                encoding,
            },
        }
    }

    /// Sends a response back: its status must be one that can be sent; its
    /// headers are those that can be sent; the record notes where the body
    /// is spooled and, where the transaction is recorded, enters
    /// `ResponseDone`, is stored, and has its head published.
    pub fn continue_response(
        &mut self,
        traffic: &mut Traffic,
        head_id: Option<u64>,
        now: i64,
        session_id: &str,
        spool_path: Option<&str>,
    ) -> (r: Result<ResponseOut, String>)
        ensures
            !valid_status(old(traffic)@.status) ==> (r matches Err(e) && e@ == invalid_status())
                && final(traffic)@ == old(traffic)@
                    && final(self).state.traffics == old(self).state.traffics
                    && final(self).state.events@ == old(self).state.events@,
            valid_status(old(traffic)@.status) ==> {
                let sent = response_sent(
                    old(traffic)@,
                    spool_path.deep_view(),
                    head_id is Some,
                    now,
                );
                let published = head_id is Some && sent.valid && head_id->0 < old(self).state.next_id;
                &&& r is Ok
                &&& r->Ok_0.status == old(traffic)@.status->0
                &&& r->Ok_0.headers.deep_view() == (match old(traffic)@.res_headers {
                    Some(h) => sendable_headers(h, h.len() as int),
                    None => Seq::empty(),
                })
                &&& final(traffic)@ == sent
                &&& published ==> r->Ok_0.head is Some && r->Ok_0.head->0@ == head_of(
                    sent,
                    head_id->0,
                    session_id@,
                ) && final(self).state.events@ == old(self).state.events@.push(
                    HeadEvent::Updated(head_id->0),
                )
                &&& !published ==> r->Ok_0.head is None
                    && final(self).state.events@ == old(self).state.events@
                &&& !published ==> final(self).state.traffics == old(self).state.traffics
                &&& published ==> final(self).state.entries().submap_of(
                    old(self).state.entries().insert(head_id->0, sent),
                ) && (takes(old(self).state.traffics, head_id->0) ==> final(self).state.entries()
                    == old(self).state.entries().insert(head_id->0, sent) && settled(
                    final(self).state.traffics,
                ))
            },
            final(self).state.paused_traffic == old(self).state.paused_traffic,
            final(self).state.monitor_traffic == old(self).state.monitor_traffic,
            final(self).state.next_id == old(self).state.next_id,
            final(self).temp_dir == old(self).temp_dir,
            cache_capacity(final(self).state.traffics) == cache_capacity(old(self).state.traffics),
            old(self).state.wf() ==> final(self).state.wf(),
            old(traffic)@.wf() ==> final(traffic)@.wf(),
    {
        let status = match traffic.status {
            Some(code) => code,
            None => {
                return Err(String::from_str("Invalid status code"));
            },
        };
        if status < 100 || status > 999 {
            return Err(String::from_str("Invalid status code"));
        }
        let headers = match &traffic.res_headers {
            Some(h) => response_headers(h),
            None => Vec::new(),
        };
        if let Some(path) = spool_path {
            traffic.set_res_body_file(path);
        }
        let head = match head_id {
            Some(id) => {
                traffic.set_response_done(now);
                self.state.update_traffic(traffic, id, session_id)
            },
            None => None,
        };
        Ok(ResponseOut { status, headers, head })
    }
}

/// Where a request is sent.
#[derive(Debug)]
pub enum Dispatch {
    /// The method is none that the engine sends: the answer is 500.
    InvalidMethod,
    /// A MapLocal rule answers the request: nothing is sent upstream.
    MapLocal(MapLocalItem),
    /// The request goes to its host.
    Direct(HttpMethod),
    /// The request goes through the external proxy.
    Proxied(HttpMethod, ProxyTarget),
}

/// Decides where a request is sent: a MapLocal rule that answers it comes
/// first, then the external proxy where the request needs it, else the
/// host of the request. Settings that are missing count as a tool that is
/// switched off.
pub fn continue_request(
    traffic: &Traffic,
    map_local: Option<&MapLocal>,
    proxy_config: Option<&ExternalProxy>,
) -> (r: Dispatch)
    ensures
        method_of(traffic@.method) is None ==> r is InvalidMethod,
        method_of(traffic@.method) matches Some(method) ==> {
            let rule = match map_local {
                Some(m) if m.tool_enabled => first_answering(
                    m.map_locals.deep_view(),
                    traffic@.uri,
                    0,
                ),
                _ => None,
            };
            match rule {
                Some(i) => r matches Dispatch::MapLocal(item) && item@
                    == map_local->0.map_locals.deep_view()[i],
                None => match proxy_config {
                    None => r matches Dispatch::Direct(m) && m == method,
                    Some(config) => {
                        let entry = first_entry(
                            config.configurations.entry@,
                            config.proxy_type@,
                            0,
                        );
                        if needs_proxy(*config, traffic@.uri) && entry is Some {
                            let c =
                                config.configurations.entry@[entry->0].mutable_external_proxy_configuration;
                            r matches Dispatch::Proxied(m, t) && m == method && t.uri@ == proxy_uri(c)
                                && t.requires_authentication == c.requires_authentication
                                && t.username@ == c.username@ && t.encrypted_password@
                                == c.encrypted_password@
                        } else {
                            r matches Dispatch::Direct(m) && m == method
                        }
                    },
                },
            }
        },
{
    let method = match parse_method(traffic.method.as_str()) {
        Some(m) => m,
        None => {
            return Dispatch::InvalidMethod;
        },
    };
    if let Some(m) = map_local {
        if let Some(item) = match_map_local(m, traffic.uri.as_str()) {
            return Dispatch::MapLocal(item);
        }
    }
    let config = match proxy_config {
        Some(c) => c,
        None => {
            return Dispatch::Direct(method);
        },
    };
    if check_proxy_config(config, traffic.uri.clone()) {
        match proxy_target(config) {
            Some(target) => Dispatch::Proxied(method, target),
            None => Dispatch::Direct(method),
        }
    } else {
        Dispatch::Direct(method)
    }
}

/// Whether a URI has the scheme `https`, in any letter case.
pub open spec fn https_uri(uri: Seq<char>) -> bool {
    uri.len() >= 8 && same_ignoring_ascii_case(uri.subrange(0, 8), "https://"@)
}

/// Whether the headers of the proxy are added to a request that goes
/// through it: they are for plain HTTP, not for HTTPS.
pub fn wants_proxy_headers(uri: &str) -> (r: bool)
    ensures
        r == !https_uri(uri@),
{
    let u = chars_of(uri);
    if u.len() < 8 {
        return true;
    }
    let scheme = slice_chars(u.as_slice(), 0, 8);
    let wanted = chars_of("https://");
    !eq_ignore_ascii_case(scheme.as_slice(), wanted.as_slice())
}

/// What went wrong in a tunnel, each with the words of the failure.
#[derive(Debug)]
pub enum TunnelFailure {
    /// The connection could not be upgraded.
    Upgrade(String),
    /// The first bytes could not be read.
    Read(String),
    /// Serving plain HTTP over the tunnel failed.
    PlainHttp(String),
    /// No TLS configuration could be made for the authority.
    ServerConfig(String),
    /// The TLS handshake with the client failed.
    TlsAccept(String),
    /// Serving HTTPS over the tunnel failed.
    Https(String),
    /// The target of an unknown protocol could not be reached.
    Connect(String),
    /// Copying an unknown protocol to and from the target failed.
    Copy(String),
}

/// The error text that a failure in the tunnel to `authority` leaves in the
/// record; none for a failure to shut down an HTTPS connection.
pub open spec fn tunnel_failure_text(failure: TunnelFailure, authority: Seq<char>) -> Option<
    Seq<char>,
> {
    match failure {
        TunnelFailure::Upgrade(e) => Some("Upgrade error: "@ + e@),
        TunnelFailure::Read(e) => Some("Failed to read from upgraded connection: "@ + e@),
        TunnelFailure::PlainHttp(e) => Some("Failed to read from upgraded connection: "@ + e@),
        TunnelFailure::ServerConfig(e) => Some("Failed to build server config: "@ + e@),
        TunnelFailure::TlsAccept(e) => Some("Failed to establish TLS Connection: "@ + e@),
        TunnelFailure::Https(e) => if has_prefix(e@, "error shutting down connection"@) {
            None
        } else {
            Some("HTTPS connect error: "@ + e@)
        },
        TunnelFailure::Connect(e) => Some("Failed to connect to "@ + authority + ": "@ + e@),
        TunnelFailure::Copy(e) => Some(
            "Failed to tunnel unknown protocol to "@ + authority + ": "@ + e@,
        ),
    }
}

fn two_parts(a: &str, b: &str) -> (r: String)
    ensures
        r@ == a@ + b@,
{
    let mut s = String::from_str(a);
    s.append(b);
    s
}

/// The error text that a failure in a tunnel leaves in the record.
pub fn tunnel_error(failure: &TunnelFailure, authority: &str) -> (r: Option<String>)
    ensures
        r.deep_view() == tunnel_failure_text(*failure, authority@),
{
    match failure {
        TunnelFailure::Upgrade(e) => Some(two_parts("Upgrade error: ", e.as_str())),
        TunnelFailure::Read(e) => Some(
            two_parts("Failed to read from upgraded connection: ", e.as_str()),
        ),
        TunnelFailure::PlainHttp(e) => Some(
            two_parts("Failed to read from upgraded connection: ", e.as_str()),
        ),
        TunnelFailure::ServerConfig(e) => Some(
            two_parts("Failed to build server config: ", e.as_str()),
        ),
        TunnelFailure::TlsAccept(e) => Some(
            two_parts("Failed to establish TLS Connection: ", e.as_str()),
        ),
        TunnelFailure::Https(e) => if starts_with(e.as_str(), "error shutting down connection") {
            None
        } else {
            Some(two_parts("HTTPS connect error: ", e.as_str()))
        },
        TunnelFailure::Connect(e) => {
            let mut s = String::from_str("Failed to connect to ");
            s.append(authority);
            s.append(": ");
            s.append(e.as_str());
            Some(s)
        },
        TunnelFailure::Copy(e) => {
            let mut s = String::from_str("Failed to tunnel unknown protocol to ");
            s.append(authority);
            s.append(": ");
            s.append(e.as_str());
            Some(s)
        },
    }
}

/// The text of a JSON value for each member of a JSON object, in the order
/// in which serde_json holds the members; nothing where the bytes are no
/// JSON object.
pub uninterp spec fn json_object_entries(bytes: Seq<u8>) -> Option<Seq<(Seq<char>, Seq<char>)>>;

/// Trusted: `serde_json::from_slice` to a `Value`, and for an object the
/// name and the `to_string` of each member. The result is named, not
/// described.
#[verifier::external_body]
fn parse_json_object(bytes: &[u8]) -> (r: Option<Vec<(String, String)>>)
    ensures
        r.deep_view() == json_object_entries(bytes@),
{
    match serde_json::from_slice::<serde_json::Value>(bytes) {
        Ok(serde_json::Value::Object(map)) => Some(
            map.iter().map(|(k, v)| (k.clone(), v.to_string())).collect(),
        ),
        _ => None,
    }
}

/// The index of the first character of `s` at or after `from` that is no
/// double quote.
pub open spec fn skip_quotes(s: Seq<char>, from: int) -> int
    decreases s.len() - from,
{
    if from < 0 || from >= s.len() || s[from] != '"' {
        from
    } else {
        skip_quotes(s, from + 1)
    }
}

/// The index behind the last character of `s` before `to` that is no double
/// quote.
pub open spec fn drop_quotes(s: Seq<char>, to: int) -> int
    decreases to,
{
    if to <= 0 || to > s.len() || s[to - 1] != '"' {
        to
    } else {
        drop_quotes(s, to - 1)
    }
}

/// `s` without the double quotes at its two ends.
pub open spec fn unquoted(s: Seq<char>) -> Seq<char> {
    let from = skip_quotes(s, 0);
    if from >= s.len() {
        Seq::empty()
    } else {
        s.subrange(from, drop_quotes(s, s.len() as int))
    }
}

fn unquote(text: &str) -> (r: String)
    ensures
        r@ == unquoted(text@),
{
    let s = chars_of(text);
    let mut from: usize = 0;
    while from < s.len() && s[from] == '"'
        invariant
            from <= s.len(),
            skip_quotes(s@, 0) == skip_quotes(s@, from as int),
        decreases s.len() - from,
    {
        from += 1;
    }
    if from >= s.len() {
        return String::new();
    }
    let mut to: usize = s.len();
    while to > 0 && s[to - 1] == '"'
        invariant
            to <= s.len(),
            drop_quotes(s@, s@.len() as int) == drop_quotes(s@, to as int),
            from < s.len(),
            s@[from as int] != '"',
            from < to,
        decreases to,
    {
        to -= 1;
    }
    let kept = slice_chars(s.as_slice(), from, to);
    string_of(kept.as_slice())
}

/// The headers with one more: where a header of the name is there already,
/// it takes the new value; else the header is added at the end.
pub open spec fn with_header(headers: Seq<HeaderView>, name: Seq<char>, value: Seq<char>) -> Seq<
    HeaderView,
> {
    match first_exact(headers, name, 0) {
        Some(i) => headers.update(i, HeaderView { name, value }),
        None => headers.push(HeaderView { name, value }),
    }
}

/// The headers that the first `n` members of a header file stand for: each
/// member whose name and unquoted value the http crate takes, under the
/// canonical spelling of its name.
pub open spec fn local_headers(entries: Seq<(Seq<char>, Seq<char>)>, n: int) -> Seq<HeaderView>
    decreases n,
{
    if n <= 0 || n > entries.len() {
        Seq::empty()
    } else {
        let rest = local_headers(entries, n - 1);
        let entry = entries[n - 1];
        let value = unquoted(entry.1);
        match header_name_accepted(entry.0) {
            Some(name) => if header_value_accepted(value) {
                with_header(rest, name, value)
            } else {
                rest
            },
            None => rest,
        }
    }
}

/// The headers that the members of a header file stand for.
pub fn headers_of_entries(entries: &Vec<(String, String)>) -> (r: Headers)
    ensures
        r@ == local_headers(entries.deep_view(), entries.len() as int),
{
    let mut out = Headers { items: Vec::new() };
    assert(out@ =~= Seq::<HeaderView>::empty());
    let mut i: usize = 0;
    while i < entries.len()
        invariant
            i <= entries.len(),
            out@ == local_headers(entries.deep_view(), i as int),
        decreases entries.len() - i,
    {
        assert(entries.deep_view()[i as int] == (entries[i as int].0@, entries[i as int].1@));
        let value = unquote(entries[i].1.as_str());
        match header_name(entries[i].0.as_str()) {
            Some(name) => {
                if header_value_ok(value.as_str()) {
                    let ghost before = out@;
                    let ghost n = name@;
                    let ghost v = value@;
                    match find_header(&out, name.as_str()) {
                        Some(k) => {
                            out.items.set(k, Header { name, value });
                            assert(out@ =~= before.update(k as int, HeaderView { name: n, value: v }));
                        },
                        None => {
                            out.items.push(Header { name, value });
                            assert(out@ =~= before.push(HeaderView { name: n, value: v }));
                        },
                    }
                }
            },
            None => {},
        }
        i += 1;
    }
    out
}

/// The answer that a MapLocal rule gives.
#[derive(Debug)]
pub struct LocalResponse {
    pub status: u16,
    pub headers: Headers,
    pub body: Vec<u8>,
}

/// The headers of the answer of a rule: those of its header file, none
/// where the rule names no header file or the file is no JSON object.
pub open spec fn local_response_headers(
    item: crate::models::map_local::MapLocalItemView,
    header_file: Option<Seq<u8>>,
) -> Seq<HeaderView> {
    match header_file {
        Some(bytes) if item.header_local.len() > 0 => match json_object_entries(bytes) {
            Some(entries) => local_headers(entries, entries.len() as int),
            None => Seq::empty(),
        },
        _ => Seq::empty(),
    }
}

/// The body of the answer of a rule: that of its body file, empty where the
/// rule names no body file or the file could not be read.
pub open spec fn local_response_body(
    item: crate::models::map_local::MapLocalItemView,
    body_file: Option<Seq<u8>>,
) -> Seq<u8> {
    match body_file {
        Some(bytes) if item.body_local.len() > 0 => bytes,
        _ => Seq::empty(),
    }
}

/// The answer of a MapLocal rule: status 200, the headers of the header
/// file and the body of the body file, as far as the caller could read
/// them.
pub fn map_local_response(
    item: &MapLocalItem,
    header_file: Option<&[u8]>,
    body_file: Option<Vec<u8>>,
) -> (r: LocalResponse)
    ensures
        r.status == 200,
        r.headers@ == local_response_headers(item@, header_file.deep_view()),
        r.body@ == local_response_body(item@, body_file.deep_view()),
{
    let headers = match header_file {
        Some(bytes) => {
            assert(header_file.deep_view() == Some(bytes@)) by {
                assert(bytes.deep_view() =~= bytes@);
            }
            if item.header_local.as_str().is_empty() {
                let h = Headers { items: Vec::new() };
                assert(h@ =~= Seq::<HeaderView>::empty());
                h
            } else {
                match parse_json_object(bytes) {
                    Some(entries) => headers_of_entries(&entries),
                    None => {
                        let h = Headers { items: Vec::new() };
                        assert(h@ =~= Seq::<HeaderView>::empty());
                        h
                    },
                }
            }
        },
        None => {
            let h = Headers { items: Vec::new() };
            assert(h@ =~= Seq::<HeaderView>::empty());
            h
        },
    };
    let body = match body_file {
        Some(bytes) => {
            assert(body_file.deep_view() == Some(bytes@)) by {
                assert(bytes.deep_view() =~= bytes@);
            }
            if item.body_local.as_str().is_empty() {
                Vec::new()
            } else {
                bytes
            }
        },
        None => Vec::new(),
    };
    LocalResponse { status: 200, headers, body }
}

/// The record of a CONNECT as it is stored: failed where the tunnel has
/// left an error in it.
pub open spec fn connect_record(t: TrafficView) -> TrafficView {
    if t.error is Some && !t.terminal() {
        TrafficView { transaction_state: TransactionState::Failed, ..t }
    } else {
        t
    }
}

/// The record of a request that a MapLocal rule has answered at `now`: it
/// has the status 200, the headers of the answer, the body file of the rule
/// and the hex preview of the body, and is closed with the size of the
/// body.
pub open spec fn answered_locally(
    t: TrafficView,
    item: crate::models::map_local::MapLocalItemView,
    headers: Seq<HeaderView>,
    body: Seq<u8>,
    now: i64,
) -> TrafficView {
    let responded = t.responded(200, "HTTP/1.1"@, headers, now);
    let filed = if item.body_local.len() > 0 && !responded.terminal() {
        TrafficView { res_body_file: Some(item.body_local), ..responded }
    } else {
        responded
    };
    with_hex(filed, false, body).streamed(now).finalized(body.len() as u64)
}

impl Server {
    /// Records the answer of a MapLocal rule: the record is completed, is
    /// stored where the transaction is recorded, and its last head is
    /// handed out.
    pub fn answer_locally(
        &mut self,
        traffic: &mut Traffic,
        head_id: Option<u64>,
        item: &MapLocalItem,
        response: &LocalResponse,
        now: i64,
        session_id: &str,
    ) -> (r: Option<TrafficHead>)
        ensures
            ({
                let done = answered_locally(
                    old(traffic)@,
                    item@,
                    response.headers@,
                    response.body@,
                    now,
                );
                let published = head_id is Some && done.valid && head_id->0 < old(self).state.next_id;
                &&& final(traffic)@ == done
                &&& published ==> r is Some && r->0@ == head_of(done, head_id->0, session_id@)
                    && final(self).state.events@ == old(self).state.events@.push(
                    HeadEvent::Updated(head_id->0),
                )
                &&& !published ==> r is None && final(self).state.events@ == old(self).state.events@
                &&& !published ==> final(self).state.traffics == old(self).state.traffics
                &&& published ==> final(self).state.entries().submap_of(
                    old(self).state.entries().insert(head_id->0, done),
                ) && (takes(old(self).state.traffics, head_id->0) ==> final(self).state.entries()
                    == old(self).state.entries().insert(head_id->0, done) && settled(
                    final(self).state.traffics,
                ))
            }),
            final(self).state.paused_traffic == old(self).state.paused_traffic,
            final(self).state.monitor_traffic == old(self).state.monitor_traffic,
            final(self).state.next_id == old(self).state.next_id,
            final(self).temp_dir == old(self).temp_dir,
            cache_capacity(final(self).state.traffics) == cache_capacity(old(self).state.traffics),
            old(self).state.wf() ==> final(self).state.wf(),
            old(traffic)@.wf() ==> final(traffic)@.wf(),
    {
        traffic.set_response_head(200, "HTTP/1.1", response.headers.clone(), now);
        if !item.body_local.as_str().is_empty() {
            traffic.set_res_body_file(item.body_local.as_str());
        }
        traffic.set_res_body_hex(bytes_to_hex(response.body.as_slice()));
        traffic.set_response_done(now);
        traffic.done_res_body(response.body.len() as u64);
        match head_id {
            Some(id) => self.state.update_traffic(traffic, id, session_id),
            None => None,
        }
    }

    /// Ends a CONNECT whose tunnel is done: while monitoring is on, its
    /// record is stored, as failed where the tunnel has left an error in it,
    /// and the head that opens it is handed out.
    pub fn handle_connect(&mut self, traffic: Traffic, session_id: &str) -> (r: Option<TrafficHead>)
        ensures
            ({
                let id = old(self).state.next_id;
                let closed = connect_record(traffic@);
                let stored = TrafficView { gid: id, session_id: session_id@, ..closed };
                let recorded = old(self).state.monitor_traffic@.len() > 0 && traffic.valid && id
                    < u64::MAX;
                &&& recorded ==> {
                    &&& r is Some
                    &&& r->0@ == head_of(stored, id, session_id@)
                    &&& final(self).state.next_id == id + 1
                    &&& final(self).state.events@ == old(self).state.events@.push(
                        HeadEvent::Opened(id),
                    )
                    &&& final(self).state.entries().submap_of(
                        old(self).state.entries().insert(id, stored),
                    )
                    &&& takes(old(self).state.traffics, id) ==> final(self).state.entries()
                        == old(self).state.entries().insert(id, stored) && settled(
                        final(self).state.traffics,
                    )
                }
                &&& !recorded ==> r is None && final(self).state.traffics == old(self).state.traffics
                    && final(self).state.next_id == id && final(self).state.events@
                    == old(self).state.events@
            }),
            final(self).state.paused_traffic == old(self).state.paused_traffic,
            final(self).state.monitor_traffic == old(self).state.monitor_traffic,
            final(self).temp_dir == old(self).temp_dir,
            cache_capacity(final(self).state.traffics) == cache_capacity(old(self).state.traffics),
            old(self).state.wf() ==> final(self).state.wf(),
    {
        if !self.state.is_monitor_traffic() {
            return None;
        }
        let mut record = traffic;
        if record.error.is_some() {
            record.fail("");
            proof {
                reveal_strlit("");
                assert(traffic@.error->0 + ""@ =~= traffic@.error->0);
            }
        }
        match self.state.add_traffic(record, session_id) {
            Ok(head) => Some(head),
            Err(_) => None,
        }
    }
}

} // verus!
