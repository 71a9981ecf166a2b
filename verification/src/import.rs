//! The import of recorded sessions: what an entry of a HAR file is stored
//! as. Reading the file and its JSON is the caller's part; an entry comes in
//! as plain values.

use crate::models::crypto::{base64_decode, base64_decoded};
use crate::preview::{bytes_to_hex, hex_of};
use crate::state::{HeadEvent, State};
use crate::store::{cache_capacity, settled, takes};
use crate::text::{clone_opt, str_eq, string_from_utf8};
use crate::traffic::{
    head_of, Header, Headers, HeaderView, Traffic, TrafficHead, TrafficView, TransactionState,
};
use vstd::prelude::*;
use vstd::string::{StringExecFns, StrSliceExecFns};
use vstd::utf8::{decode_utf8, encode_utf8, valid_utf8};

verus! {

/// One entry of a HAR file, as far as the engine keeps it. What the file
/// does not say is absent.
#[derive(Debug)]
pub struct HarEntry {
    pub method: Option<String>,
    pub url: Option<String>,
    pub http_version: Option<String>,
    pub req_headers: Option<Vec<(String, String)>>,
    pub res_headers: Option<Vec<(String, String)>>,
    /// The text of the posted body.
    pub post_text: Option<String>,
    /// The parameters of the posted body, where it has no text.
    pub post_params: Option<Vec<(String, String)>>,
    /// The text of the body of the response.
    pub res_text: Option<String>,
    /// How the text of the body of the response is encoded.
    pub res_encoding: Option<String>,
    pub status: Option<u64>,
    pub res_size: Option<u64>,
    /// When the exchange began, in milliseconds since the Unix epoch.
    pub started: Option<i64>,
    /// How long the exchange took, in milliseconds.
    pub time_ms: Option<u64>,
}

/// The pairs as headers.
pub open spec fn headers_of_pairs(pairs: Seq<(Seq<char>, Seq<char>)>) -> Seq<HeaderView> {
    Seq::new(pairs.len(), |i: int| HeaderView { name: pairs[i].0, value: pairs[i].1 })
}

/// The first `n` parameters of a posted body as one text: each as its name,
/// an equals sign and its value, with ampersands between them.
pub open spec fn joined_params(params: Seq<(Seq<char>, Seq<char>)>, n: int) -> Seq<char>
    decreases n,
{
    if n <= 0 || n > params.len() {
        Seq::empty()
    } else if n == 1 {
        params[0].0 + seq!['='] + params[0].1
    } else {
        joined_params(params, n - 1) + seq!['&'] + params[n - 1].0 + seq!['='] + params[n - 1].1
    }
}

/// The body of the request of an entry: its text, else its parameters as
/// one text.
pub open spec fn har_req_body(e: HarEntry) -> Option<Seq<char>> {
    match e.post_text {
        Some(t) => Some(t@),
        None => match e.post_params {
            Some(p) => Some(joined_params(p.deep_view(), p.len() as int)),
            None => None,
        },
    }
}

/// The body of the response of an entry: its text; where the text is
/// base64, what it decodes to, if that is text.
pub open spec fn har_res_body(e: HarEntry) -> Option<Seq<char>> {
    match e.res_text {
        Some(t) => if e.res_encoding matches Some(enc) && enc@ == "base64"@ {
            match base64_decoded(t@) {
                Some(bytes) => if valid_utf8(bytes) {
                    Some(decode_utf8(bytes))
                } else {
                    None
                },
                None => None,
            }
        } else {
            Some(t@)
        },
        None => None,
    }
}

/// The end of an exchange that began at `started` and took `time_ms`
/// milliseconds; the latest time that can be told where the sum is later.
pub open spec fn har_end(started: i64, time_ms: Option<u64>) -> i64 {
    let took = match time_ms {
        Some(t) => t as int,
        None => 0,
    };
    if started + took > i64::MAX {
        i64::MAX
    } else {
        (started + took) as i64
    }
}

/// The hex preview of a text.
pub open spec fn text_hex(text: Option<Seq<char>>) -> Option<Seq<char>> {
    match text {
        Some(t) => Some(hex_of(encode_utf8(t))),
        None => None,
    }
}

/// The record that an entry of a HAR file is stored as: a completed
/// transaction.
pub open spec fn har_record(
    e: HarEntry,
    gid: u64,
    session_id: Seq<char>,
    req_body_file: Option<Seq<char>>,
    res_body_file: Option<Seq<char>>,
) -> TrafficView {
    TrafficView {
        gid,
        session_id,
        uri: match e.url {
            Some(u) => u@,
            None => Seq::empty(),
        },
        method: match e.method {
            Some(m) => m@,
            None => Seq::empty(),
        },
        transaction_state: TransactionState::Completed,
        req_headers: match e.req_headers {
            Some(h) => Some(headers_of_pairs(h.deep_view())),
            None => None,
        },
        req_body_file,
        req_body_hex: text_hex(har_req_body(e)),
        status: match e.status {
            Some(s) => Some((s % 65536) as u16),
            None => None,
        },
        http_version: e.http_version.deep_view(),
        res_headers: match e.res_headers {
            Some(h) => Some(headers_of_pairs(h.deep_view())),
            None => None,
        },
        res_body_file,
        res_body_hex: text_hex(har_res_body(e)),
        res_body_size: e.res_size,
        start_time: e.started,
        end_time: match e.started {
            Some(s) => Some(har_end(s, e.time_ms)),
            None => None,
        },
        error: None,
        valid: true,
    }
}

fn pairs_to_headers(pairs: &Option<Vec<(String, String)>>) -> (r: Option<Headers>)
    ensures
        r.deep_view() == (match *pairs {
            Some(p) => Some(headers_of_pairs(p.deep_view())),
            None => None,
        }),
{
    let p = match pairs {
        Some(p) => p,
        None => {
            return None;
        },
    };
    let mut items: Vec<Header> = Vec::new();
    let mut i: usize = 0;
    while i < p.len()
        invariant
            i <= p.len(),
            items.len() == i,
            forall|j: int|
                0 <= j < i ==> (#[trigger] items[j])@ == (HeaderView {
                    name: p[j].0@,
                    value: p[j].1@,
                }),
        decreases p.len() - i,
    {
        items.push(Header { name: p[i].0.clone(), value: p[i].1.clone() });
        i += 1;
    }
    let h = Headers { items };
    assert(h@ =~= headers_of_pairs(p.deep_view()));
    Some(h)
}

fn join_params(params: &Vec<(String, String)>) -> (r: String)
    ensures
        r@ == joined_params(params.deep_view(), params.len() as int),
{
    let mut out = String::new();
    let mut i: usize = 0;
    while i < params.len()
        invariant
            i <= params.len(),
            out@ == joined_params(params.deep_view(), i as int),
        decreases params.len() - i,
    {
        assert(params.deep_view()[i as int] == (params[i as int].0@, params[i as int].1@));
        let ghost before = out@;
        if i > 0 {
            out.append("&");
        }
        out.append(params[i].0.as_str());
        out.append("=");
        out.append(params[i].1.as_str());
        proof {
            reveal_strlit("&");
            reveal_strlit("=");
            if i == 0 {
                assert(out@ =~= params[0].0@ + seq!['='] + params[0].1@);
            } else {
                assert(out@ =~= before + seq!['&'] + params[i as int].0@ + seq!['=']
                    + params[i as int].1@);
            }
        }
        i += 1;
    }
    out
}

/// The body of the request of an entry.
pub fn req_body_of(entry: &HarEntry) -> (r: Option<String>)
    ensures
        r.deep_view() == har_req_body(*entry),
{
    match &entry.post_text {
        Some(t) => Some(t.clone()),
        None => match &entry.post_params {
            Some(p) => Some(join_params(p)),
            None => None,
        },
    }
}

/// The body of the response of an entry.
pub fn res_body_of(entry: &HarEntry) -> (r: Option<String>)
    ensures
        r.deep_view() == har_res_body(*entry),
{
    let text = match &entry.res_text {
        Some(t) => t,
        None => {
            return None;
        },
    };
    let base64 = match &entry.res_encoding {
        Some(enc) => str_eq(enc.as_str(), "base64"),
        None => false,
    };
    if base64 {
        match base64_decode(text.as_str()) {
            Ok(bytes) => string_from_utf8(bytes),
            Err(_) => None,
        }
    } else {
        Some(text.clone())
    }
}

fn hex_of_text(text: &Option<String>) -> (r: Option<String>)
    ensures
        r.deep_view() == text_hex(text.deep_view()),
{
    match text {
        Some(t) => Some(bytes_to_hex(t.as_str().as_bytes_vec().as_slice())),
        None => None,
    }
}

/// The record that an entry of a HAR file is stored as, with the files
/// that the caller has spooled its bodies to.
pub fn traffic_from_har(
    entry: &HarEntry,
    gid: u64,
    session_id: &str,
    req_body_file: Option<&str>,
    res_body_file: Option<&str>,
) -> (t: Traffic)
    ensures
        t@ == har_record(
            *entry,
            gid,
            session_id@,
            req_body_file.deep_view(),
            res_body_file.deep_view(),
        ),
{
    let req_body = req_body_of(entry);
    let res_body = res_body_of(entry);
    let end_time = match entry.started {
        Some(s) => {
            let took: u64 = match entry.time_ms {
                Some(t) => t,
                None => 0,
            };
            let sum: i128 = s as i128 + took as i128;
            let end: i64 = if sum > 0x7fff_ffff_ffff_ffff {
                i64::MAX
            } else {
                sum as i64
            };
            Some(end)
        },
        None => None,
    };
    Traffic {
        gid,
        session_id: String::from_str(session_id),
        uri: match &entry.url {
            Some(u) => u.clone(),
            None => String::new(),
        },
        method: match &entry.method {
            Some(m) => m.clone(),
            None => String::new(),
        },
        transaction_state: TransactionState::Completed,
        req_headers: pairs_to_headers(&entry.req_headers),
        req_body_file: match req_body_file {
            Some(p) => Some(String::from_str(p)),
            None => None,
        },
        req_body_hex: hex_of_text(&req_body),
        status: match entry.status {
            Some(s) => Some((s % 65536) as u16),
            None => None,
        },
        http_version: clone_opt(&entry.http_version),
        res_headers: pairs_to_headers(&entry.res_headers),
        res_body_file: match res_body_file {
            Some(p) => Some(String::from_str(p)),
            None => None,
        },
        res_body_hex: hex_of_text(&res_body),
        res_body_size: entry.res_size,
        start_time: entry.started,
        end_time,
        error: None,
        valid: true,
    }
}

impl State {
    /// Stores an imported record under the next gid, as one that is kept
    /// for persisting, and hands out its head.
    pub fn import_traffic(&mut self, traffic: Traffic, session_id: &str) -> (r: Result<
        TrafficHead,
        String,
    >)
        ensures
            old(self).next_id < u64::MAX ==> {
                let stored = TrafficView {
                    gid: old(self).next_id,
                    session_id: session_id@,
                    valid: true,
                    ..traffic@
                };
                &&& r is Ok
                &&& r->Ok_0@ == head_of(stored, old(self).next_id, session_id@)
                &&& final(self).next_id == old(self).next_id + 1
                &&& final(self).events@ == old(self).events@.push(
                    HeadEvent::Opened(old(self).next_id),
                )
                &&& final(self).entries().submap_of(
                    old(self).entries().insert(old(self).next_id, stored),
                )
                &&& takes(old(self).traffics, old(self).next_id) ==> final(self).entries()
                    == old(self).entries().insert(old(self).next_id, stored) && settled(
                    final(self).traffics,
                )
            },
            old(self).wf() ==> !old(self).entries().contains_key(old(self).next_id),
            old(self).next_id == u64::MAX ==> r is Err && final(self).traffics == old(self).traffics
                && final(self).next_id == old(self).next_id && final(self).events@ == old(self).events@,
            cache_capacity(final(self).traffics) == cache_capacity(old(self).traffics),
            final(self).paused_traffic == old(self).paused_traffic,
            final(self).monitor_traffic == old(self).monitor_traffic,
            old(self).wf() ==> final(self).wf(),
    {
        let mut record = traffic;
        record.valid = true;
        self.add_traffic(record, session_id)
    }
}

/// What is answered for a HAR file without a list of entries.
pub open spec fn invalid_har() -> Seq<char> {
    "Invalid HAR file format"@
}

/// Imports one entry of a HAR file: it is stored under the next gid as the
/// record that `har_record` gives for it, with the files that the caller
/// has spooled its bodies to, and its head is handed out. A file without
/// a list of entries is refused, and nothing is stored.
pub fn import_entry(
    state: &mut State,
    entries_present: bool,
    entry: &HarEntry,
    session_id: &str,
    req_file: Option<&str>,
    res_file: Option<&str>,
) -> (r: Result<TrafficHead, String>)
    ensures
        !entries_present ==> (r matches Err(e) && e@ == invalid_har()),
        entries_present && old(state).next_id < u64::MAX ==> {
            let id = old(state).next_id;
            let stored = TrafficView {
                valid: true,
                ..har_record(*entry, id, session_id@, req_file.deep_view(), res_file.deep_view())
            };
            &&& r is Ok
            &&& r->Ok_0@ == head_of(stored, id, session_id@)
            &&& final(state).next_id == id + 1
            &&& final(state).events@ == old(state).events@.push(HeadEvent::Opened(id))
            &&& final(state).entries().submap_of(old(state).entries().insert(id, stored))
            &&& takes(old(state).traffics, id) ==> final(state).entries()
                == old(state).entries().insert(id, stored) && settled(final(state).traffics)
        },
        old(state).wf() ==> !old(state).entries().contains_key(old(state).next_id),
        !(entries_present && old(state).next_id < u64::MAX) ==> r is Err && final(state).traffics
            == old(state).traffics && final(state).next_id == old(state).next_id
            && final(state).events@ == old(state).events@,
        cache_capacity(final(state).traffics) == cache_capacity(old(state).traffics),
        final(state).paused_traffic == old(state).paused_traffic,
        final(state).monitor_traffic == old(state).monitor_traffic,
        old(state).wf() ==> final(state).wf(),
{
    if !entries_present {
        return Err(String::from_str("Invalid HAR file format"));
    }
    let traffic = traffic_from_har(entry, state.next_id, session_id, req_file, res_file);
    state.import_traffic(traffic, session_id)
}

} // verus!
