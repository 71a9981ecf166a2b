//! The commands of the user interface, as far as the engine decides about
//! them: what a debugger command does, what a resent request looks like,
//! in which format transactions are exported, and how a transaction is
//! shown.

use crate::proxy_server::ProxyServer;
use crate::server::{method_of, parse_method, HttpMethod, TrafficData};
use crate::state::{
    modified, modified_body, new_pause_id, not_found, position, PausedView, State,
    TrafficModification,
};
use crate::store::settled;
use crate::text::{clone_opt, decimal, decimal_string, str_eq};
use crate::traffic::{Body, Traffic, TransactionState};
use vstd::prelude::*;
use vstd::string::{StringExecFns, StrSliceExecFns};
use vstd::utf8::encode_utf8;

verus! {

/// What the operator tells the debugger.
#[derive(Debug)]
pub enum DebuggerCommand {
    /// Let the transaction suspended under this pause id go on.
    Continue { id: String },
    /// Merge a change into a suspended transaction.
    ModifyTraffic(TrafficModification),
}

/// What a command is answered with while no engine runs.
pub open spec fn no_state() -> Seq<char> {
    "Not found state"@
}

/// What a command makes of the registry of suspended transactions; nothing
/// where the command is refused. `Continue` lets the transaction under its
/// id go on; `ModifyTraffic` merges a change into the transaction under its
/// id, unless that one has been let go already.
pub open spec fn commanded(registry: Seq<PausedView>, command: DebuggerCommand) -> Option<
    Seq<PausedView>,
> {
    match command {
        DebuggerCommand::Continue { id } => match position(registry, id@, 0) {
            Some(i) => Some(registry.update(i, PausedView { resumed: true, ..registry[i] })),
            None => None,
        },
        DebuggerCommand::ModifyTraffic(m) => match position(registry, m.id@, 0) {
            Some(i) if !registry[i].resumed => Some(
                registry.update(
                    i,
                    PausedView {
                        traffic: modified(registry[i].traffic, m@),
                        body: modified_body(registry[i].body, m@),
                        ..registry[i]
                    },
                ),
            ),
            _ => None,
        },
    }
}

/// Whether `r` and the registry `after` are what a command leaves behind
/// on the registry `before`: success and the registry as the command makes
/// it, or the refusal and the registry as it was.
pub open spec fn carried_out(
    before: Seq<PausedView>,
    command: DebuggerCommand,
    r: Result<String, String>,
    after: Seq<PausedView>,
) -> bool {
    match commanded(before, command) {
        Some(made) => r is Ok && r->Ok_0@ == "Success"@ && after == made,
        None => r is Err && r->Err_0@ == not_found() && after == before,
    }
}

/// Carries out a debugger command on the state of an engine.
pub fn debugger_command(state: &mut State, command: &DebuggerCommand) -> (r: Result<String, String>)
    ensures
        carried_out(old(state).paused_traffic@, *command, r, final(state).paused_traffic@),
        final(state).traffics == old(state).traffics,
        final(state).monitor_traffic == old(state).monitor_traffic,
        final(state).next_id == old(state).next_id,
        final(state).events == old(state).events,
        old(state).wf() ==> final(state).wf(),
{
    let done = match command {
        DebuggerCommand::Continue { id } => state.continue_traffic(id.as_str()),
        DebuggerCommand::ModifyTraffic(m) => state.modify_paused_traffic(m),
    };
    match done {
        Ok(_) => Ok(String::from_str("Success")),
        Err(e) => Err(e),
    }
}

/// Carries out a debugger command on the engine that runs; without one, the
/// command is refused.
pub fn handle_debugger_command(proxy_server: &mut ProxyServer, command: &DebuggerCommand) -> (r:
    Result<String, String>)
    ensures
        old(proxy_server).server is None ==> (r matches Err(e) && e@ == no_state())
            && *final(proxy_server) == *old(proxy_server),
        old(proxy_server).server matches Some(before) ==> {
            &&& final(proxy_server).server is Some
            &&& carried_out(
                before.state.paused_traffic@,
                *command,
                r,
                final(proxy_server).server->0.state.paused_traffic@,
            )
            &&& final(proxy_server).server->0.temp_dir == before.temp_dir
            &&& final(proxy_server).server->0.state.traffics == before.state.traffics
            &&& final(proxy_server).server->0.state.monitor_traffic == before.state.monitor_traffic
            &&& final(proxy_server).server->0.state.next_id == before.state.next_id
            &&& final(proxy_server).server->0.state.events == before.state.events
            &&& before.state.wf() ==> final(proxy_server).server->0.state.wf()
        },
        final(proxy_server).current_port == old(proxy_server).current_port,
        final(proxy_server).stop_sender == old(proxy_server).stop_sender,
        final(proxy_server).old_state == old(proxy_server).old_state,
{
    match proxy_server.server.take() {
        Some(mut server) => {
            let r = debugger_command(&mut server.state, command);
            proxy_server.server = Some(server);
            r
        },
        None => Err(String::from_str("Not found state")),
    }
}

/// The format in which transactions are exported to a file with this
/// extension.
pub open spec fn format_of_extension(extension: Option<Seq<char>>) -> Seq<char> {
    match extension {
        Some(e) => if e == "md"@ {
            "markdown"@
        } else if e == "har"@ {
            "har"@
        } else if e == "sh"@ {
            "curl"@
        } else if e == "json"@ {
            "json"@
        } else {
            "txt"@
        },
        None => "txt"@,
    }
}

/// The format in which transactions are exported to a file with this
/// extension.
pub fn export_format(extension: Option<&str>) -> (r: &'static str)
    ensures
        r@ == format_of_extension(extension.deep_view()),
{
    match extension {
        Some(e) => {
            if str_eq(e, "md") {
                "markdown"
            } else if str_eq(e, "har") {
                "har"
            } else if str_eq(e, "sh") {
                "curl"
            } else if str_eq(e, "json") {
                "json"
            } else {
                "txt"
            }
        },
        None => "txt",
    }
}

/// The content type of an export: Markdown, JSON (for `har`, `json` and the
/// empty format, which lists the heads) or plain text (for `curl`); any
/// other format is not supported.
pub open spec fn content_type_of(format: Seq<char>) -> Option<Seq<char>> {
    if format == "markdown"@ {
        Some("text/markdown; charset=UTF-8"@)
    } else if format == "har"@ || format == "json"@ || format == ""@ {
        Some("application/json; charset=UTF-8"@)
    } else if format == "curl"@ {
        Some("text/plain; charset=UTF-8"@)
    } else {
        None
    }
}

/// The content type of an export in `format`.
pub fn export_content_type(format: &str) -> (r: Result<&'static str, String>)
    ensures
        match content_type_of(format@) {
            Some(t) => r matches Ok(text) && text@ == t,
            None => r matches Err(e) && e@ == "Unsupported format: "@ + format@,
        },
{
    if str_eq(format, "markdown") {
        Ok("text/markdown; charset=UTF-8")
    } else if str_eq(format, "har") || str_eq(format, "json") || str_eq(format, "") {
        Ok("application/json; charset=UTF-8")
    } else if str_eq(format, "curl") {
        Ok("text/plain; charset=UTF-8")
    } else {
        let mut e = String::from_str("Unsupported format: ");
        e.append(format);
        Err(e)
    }
}

/// A request as the operator sends it again: through the engine itself,
/// which listens on this machine.
#[derive(Debug)]
pub struct ResendRequest {
    pub url: String,
    pub method: HttpMethod,
    pub headers: Vec<(String, String)>,
    pub body: Vec<u8>,
    /// `http://127.0.0.1:` and the port of the engine.
    pub proxy_uri: String,
}

/// The headers of a resent request: those that the operator gave, and, for
/// a request with a body, the length of the body.
pub open spec fn resend_headers(
    given: Option<Seq<(Seq<char>, Seq<char>)>>,
    body: Option<Seq<char>>,
) -> Seq<(Seq<char>, Seq<char>)> {
    let base = match given {
        Some(h) => h,
        None => Seq::empty(),
    };
    match body {
        Some(text) => base.push(("content-length"@, decimal(encode_utf8(text).len()))),
        None => base,
    }
}

fn clone_pairs(pairs: &Vec<(String, String)>) -> (r: Vec<(String, String)>)
    ensures
        r.deep_view() == pairs.deep_view(),
{
    let mut out: Vec<(String, String)> = Vec::new();
    let mut i: usize = 0;
    while i < pairs.len()
        invariant
            i <= pairs.len(),
            out.len() == i,
            forall|j: int| 0 <= j < i ==> out[j].0@ == pairs[j].0@ && out[j].1@ == pairs[j].1@,
        decreases pairs.len() - i,
    {
        out.push((pairs[i].0.clone(), pairs[i].1.clone()));
        i += 1;
    }
    assert(out.deep_view() =~= pairs.deep_view());
    out
}

/// Makes the request that sends a transaction again. The URL and the method
/// must be given, and the method must be one that the engine sends.
pub fn on_resend_traffic(traffic: &TrafficModification, current_port: u16) -> (r: Result<
    ResendRequest,
    String,
>)
    ensures
        traffic.url is None ==> (r matches Err(e) && e@ == "URL is required"@),
        traffic.url is Some && traffic.method is None ==> (r matches Err(e) && e@
            == "Method is required"@),
        traffic.url is Some && traffic.method is Some && method_of(traffic.method->0@) is None ==> (
        r matches Err(e) && e@ == "Invalid method"@),
        traffic.url is Some && traffic.method is Some && method_of(traffic.method->0@) is Some ==> (
        r matches Ok(req) && req.url@ == traffic.url->0@ && Some(req.method) == method_of(
            traffic.method->0@,
        ) && req.headers.deep_view() == resend_headers(
            traffic.modified_headers.deep_view(),
            traffic.modified_body.deep_view(),
        ) && req.body@ == (match traffic.modified_body {
            Some(text) => encode_utf8(text@),
            None => Seq::empty(),
        }) && req.proxy_uri@ == "http://127.0.0.1:"@ + decimal(current_port as nat)),
{
    let url = match &traffic.url {
        Some(u) => u.clone(),
        None => {
            return Err(String::from_str("URL is required"));
        },
    };
    let name = match &traffic.method {
        Some(m) => m,
        None => {
            return Err(String::from_str("Method is required"));
        },
    };
    let method = match parse_method(name.as_str()) {
        Some(m) => m,
        None => {
            return Err(String::from_str("Invalid method"));
        },
    };
    let mut headers = match &traffic.modified_headers {
        Some(h) => clone_pairs(h),
        None => {
            let v: Vec<(String, String)> = Vec::new();
            assert(v.deep_view() =~= Seq::<(Seq<char>, Seq<char>)>::empty());
            v
        },
    };
    let body = match &traffic.modified_body {
        Some(text) => {
            let bytes = text.as_str().as_bytes_vec();
            let ghost before = headers.deep_view();
            let length = decimal_string(bytes.len() as u64);
            headers.push((String::from_str("content-length"), length));
            assert(headers.deep_view() =~= before.push(
                ("content-length"@, decimal(bytes@.len())),
            ));
            bytes
        },
        None => Vec::new(),
    };
    let mut proxy_uri = String::from_str("http://127.0.0.1:");
    let port = decimal_string(current_port as u64);
    proxy_uri.append(port.as_str());
    Ok(ResendRequest { url, method, headers, body, proxy_uri })
}

/// What the overview of a transaction shows.
#[derive(Debug)]
pub struct Overview {
    pub url: String,
    pub method: String,
    pub status: TransactionState,
    pub code: Option<u16>,
    pub protocol: Option<String>,
    pub start_time: Option<i64>,
    pub end_time: Option<i64>,
}

/// A transaction as the detail view shows it.
#[derive(Debug)]
pub struct TrafficDetail {
    pub overview: Overview,
    pub req_head_json: Option<String>,
    pub res_head_json: Option<String>,
    pub req_body_hex: Option<String>,
    pub res_body_hex: Option<String>,
    pub req_body: Option<Body>,
    pub res_body: Option<Body>,
}

/// The overview of a transaction.
pub fn overview_of(traffic: &Traffic) -> (o: Overview)
    ensures
        o.url@ == traffic@.uri,
        o.method@ == traffic@.method,
        o.status == traffic@.transaction_state,
        o.code == traffic@.status,
        o.protocol.deep_view() == traffic@.http_version,
        o.start_time == traffic@.start_time,
        o.end_time == traffic@.end_time,
{
    Overview {
        url: traffic.uri.clone(),
        method: traffic.method.clone(),
        status: traffic.transaction_state,
        code: traffic.status,
        protocol: clone_opt(&traffic.http_version),
        start_time: traffic.start_time,
        end_time: traffic.end_time,
    }
}

/// The detail view of a transaction, with the headers as JSON text and the
/// bodies as the caller has read them.
pub fn traffic_detail(
    traffic: &Traffic,
    req_head_json: Option<String>,
    res_head_json: Option<String>,
    req_body: Option<Body>,
    res_body: Option<Body>,
) -> (d: TrafficDetail)
    ensures
        d.overview.url@ == traffic@.uri,
        d.overview.method@ == traffic@.method,
        d.overview.status == traffic@.transaction_state,
        d.overview.code == traffic@.status,
        d.overview.protocol.deep_view() == traffic@.http_version,
        d.overview.start_time == traffic@.start_time,
        d.overview.end_time == traffic@.end_time,
        d.req_head_json == req_head_json,
        d.res_head_json == res_head_json,
        d.req_body_hex.deep_view() == traffic@.req_body_hex,
        d.res_body_hex.deep_view() == traffic@.res_body_hex,
        d.req_body == req_body,
        d.res_body == res_body,
{
    TrafficDetail {
        overview: overview_of(traffic),
        req_head_json,
        res_head_json,
        req_body_hex: clone_opt(&traffic.req_body_hex),
        res_body_hex: clone_opt(&traffic.res_body_hex),
        req_body,
        res_body,
    }
}

impl State {
    /// Prepares a transaction for being sent again: the record kept under
    /// `id` and the body of its request, as the caller has read it, under a
    /// fresh id for the operator to answer to.
    pub fn resend_traffic(&mut self, id: u64, req_body: Option<Body>) -> (r: Result<
        (String, TrafficData),
        String,
    >)
        ensures
            r matches Ok(pair) ==> old(self).entries().contains_key(id)
                && pair.1.traffic@ == old(self).entries()[id] && pair.1.body == req_body
                && pair.1.traffic_type@ == "resend"@,
            r matches Err(e) ==> e@ == "Traffic with id "@ + decimal(id as nat) + " not found"@,
            r is Ok <==> old(self).entries().contains_key(id),
            settled(old(self).traffics) ==> final(self).entries() == old(self).entries() && settled(
                final(self).traffics,
            ),
            final(self).entries().submap_of(old(self).entries()),
            old(self).wf() ==> final(self).wf(),
            final(self).paused_traffic == old(self).paused_traffic,
            final(self).monitor_traffic == old(self).monitor_traffic,
            final(self).next_id == old(self).next_id,
            final(self).events == old(self).events,
    {
        let traffic = match self.get_traffic(id) {
            Ok(t) => t,
            Err(e) => {
                return Err(e);
            },
        };
        let resend_id = new_pause_id();
        Ok(
            (
                resend_id,
                TrafficData { traffic, body: req_body, traffic_type: String::from_str("resend") },
            ),
        )
    }
}

} // verus!
