//! Breakpoint rules and their evaluation, the modification of a suspended
//! transaction, and the registry of suspended transactions.

use crate::text::{
    chars_of, clone_opt, contains, contains_seq, decimal, decimal_string, find_from, lowercase_of,
    str_eq, to_lowercase,
};
use crate::server::PrintMode;
use crate::store::{
    cache_capacity, cache_entries, cache_get, cache_insert, cache_list, cache_new, cache_remove,
    copy_into, drawn_from, heads_of, lemma_pairs_get, lemma_pairs_len, lemma_submap_at,
    no_entries, pairs_map, settled, takes,
};
use crate::traffic::{
    head_of, Body, Header, HeaderView, Headers, Traffic, TrafficHead, TrafficView,
};
use moka::sync::Cache;
use std::sync::Arc;
use vstd::prelude::*;
use vstd::string::StringExecFns;

verus! {

/// What a rule asks of the response.
#[derive(Debug)]
pub struct Res {
    pub body: Option<String>,
    pub headers: Option<String>,
}

/// What a rule asks of the request.
#[derive(Debug)]
pub struct Req {
    pub body: Option<String>,
    pub headers: Option<String>,
}

/// The conditions of a rule. A condition that is absent holds of every
/// transaction.
#[derive(Debug)]
pub struct BreakpointConditions {
    pub url: Option<String>,
    pub method: Option<String>,
    pub request: Option<Req>,
    pub response: Option<Res>,
    pub req_enable: bool,
    pub res_enable: bool,
}

/// A breakpoint rule.
#[derive(Debug)]
pub struct Breakpoint {
    pub id: String,
    pub enabled: bool,
    pub conditions: BreakpointConditions,
}

/// The rules of the breakpoint tool, in the order in which they are tried.
#[derive(Debug)]
pub struct BreakpointsConfig {
    pub breakpoints: Vec<Breakpoint>,
    pub tool_enabled: bool,
}

/// How far a rule matches a transaction.
#[derive(Clone, Copy, Debug, PartialEq, Eq, Structural)]
pub enum BreakpointMatchResult {
    /// Every condition of the rule holds.
    FullMatch,
    /// The conditions on the head hold; the body is still to be looked at.
    HeaderOnlyMatch,
    NoMatch,
}

/// The conditions of a rule as plain values.
pub struct ConditionsView {
    pub url: Option<Seq<char>>,
    pub method: Option<Seq<char>>,
    pub req_headers: Option<Seq<char>>,
    pub req_body: Option<Seq<char>>,
    pub res_headers: Option<Seq<char>>,
    pub res_body: Option<Seq<char>>,
    pub req_enable: bool,
    pub res_enable: bool,
}

/// A rule as plain values.
pub struct BreakpointView {
    pub id: Seq<char>,
    pub enabled: bool,
    pub conditions: ConditionsView,
}

impl View for BreakpointConditions {
    type V = ConditionsView;

    open spec fn view(&self) -> ConditionsView {
        ConditionsView {
            url: self.url.deep_view(),
            method: self.method.deep_view(),
            req_headers: match self.request {
                Some(r) => r.headers.deep_view(),
                None => None,
            },
            req_body: match self.request {
                Some(r) => r.body.deep_view(),
                None => None,
            },
            res_headers: match self.response {
                Some(r) => r.headers.deep_view(),
                None => None,
            },
            res_body: match self.response {
                Some(r) => r.body.deep_view(),
                None => None,
            },
            req_enable: self.req_enable,
            res_enable: self.res_enable,
        }
    }
}

impl View for Breakpoint {
    type V = BreakpointView;

    open spec fn view(&self) -> BreakpointView {
        BreakpointView { id: self.id@, enabled: self.enabled, conditions: self.conditions@ }
    }
}

impl DeepView for Breakpoint {
    type V = BreakpointView;

    open spec fn deep_view(&self) -> BreakpointView {
        self@
    }
}

impl Clone for Breakpoint {
    fn clone(&self) -> (r: Self)
        ensures
            r@ == self@,
    {
        Breakpoint {
            id: self.id.clone(),
            enabled: self.enabled,
            conditions: BreakpointConditions {
                url: clone_opt(&self.conditions.url),
                method: clone_opt(&self.conditions.method),
                request: match &self.conditions.request {
                    Some(r) => Some(Req { body: clone_opt(&r.body), headers: clone_opt(&r.headers) }),
                    None => None,
                },
                response: match &self.conditions.response {
                    Some(r) => Some(Res { body: clone_opt(&r.body), headers: clone_opt(&r.headers) }),
                    None => None,
                },
                req_enable: self.conditions.req_enable,
                res_enable: self.conditions.res_enable,
            },
        }
    }
}

impl BreakpointsConfig {
    /// No rules, and the tool switched off.
    pub fn new() -> (c: Self)
        ensures
            c.breakpoints@.len() == 0,
            !c.tool_enabled,
    {
        BreakpointsConfig { breakpoints: Vec::new(), tool_enabled: false }
    }
}

impl Default for BreakpointsConfig {
    fn default() -> (c: Self)
        ensures
            c.breakpoints@.len() == 0,
            !c.tool_enabled,
    {
        BreakpointsConfig::new()
    }
}

/// Whether the name or the value of `h` contains `cond`, letter case aside.
pub open spec fn header_hit(h: HeaderView, cond: Seq<char>) -> bool {
    contains_seq(lowercase_of(h.name), lowercase_of(cond)) || contains_seq(
        lowercase_of(h.value),
        lowercase_of(cond),
    )
}

/// Whether some header of the first `n` is hit by `cond`.
pub open spec fn header_hit_before(headers: Seq<HeaderView>, cond: Seq<char>, n: int) -> bool {
    exists|i: int| 0 <= i < n && i < headers.len() && header_hit(#[trigger] headers[i], cond)
}

/// The header condition of a rule against the headers of one direction:
/// without a condition it holds; with one, some header must be hit, and a
/// transaction without headers is not.
pub open spec fn headers_hold(headers: Option<Seq<HeaderView>>, cond: Option<Seq<char>>) -> bool {
    match cond {
        None => true,
        Some(c) => match headers {
            None => false,
            Some(hs) => header_hit_before(hs, c, hs.len() as int),
        },
    }
}

/// The verdict of one rule on one transaction in the direction
/// `traffic_type` (`"request"` or `"response"`; any other word matches
/// nothing). It is a function of its three arguments alone.
pub open spec fn evaluate(
    rule: BreakpointView,
    tx: TrafficView,
    traffic_type: Seq<char>,
) -> BreakpointMatchResult {
    let c = rule.conditions;
    let request = traffic_type == "request"@;
    let response = traffic_type == "response"@;
    let enabled = (request && c.req_enable) || (!request && response && c.res_enable);
    let url_holds = c.url is None || contains_seq(tx.uri, c.url->0);
    let method_holds = c.method is None || c.method->0 == tx.method;
    let headers = if request {
        tx.req_headers
    } else {
        tx.res_headers
    };
    let header_cond = if request {
        c.req_headers
    } else {
        c.res_headers
    };
    let body_cond = if request {
        c.req_body
    } else {
        c.res_body
    };
    if !enabled {
        BreakpointMatchResult::NoMatch
    } else if !url_holds || !method_holds {
        BreakpointMatchResult::NoMatch
    } else if !headers_hold(headers, header_cond) {
        BreakpointMatchResult::NoMatch
    } else if body_cond is Some {
        BreakpointMatchResult::HeaderOnlyMatch
    } else {
        BreakpointMatchResult::FullMatch
    }
}

fn header_is_hit(h: &Header, cond_lower: &[char], Ghost(cond): Ghost<Seq<char>>) -> (r: bool)
    requires
        cond_lower@ == lowercase_of(cond),
    ensures
        r == header_hit(h@, cond),
{
    let name = to_lowercase(h.name.as_str());
    let n = chars_of(name.as_str());
    if find_from(n.as_slice(), cond_lower, 0).is_some() {
        return true;
    }
    let value = to_lowercase(h.value.as_str());
    let v = chars_of(value.as_str());
    find_from(v.as_slice(), cond_lower, 0).is_some()
}

fn headers_are_hit(headers: &Option<Headers>, cond: &Option<String>) -> (r: bool)
    ensures
        r == headers_hold(headers.deep_view(), cond.deep_view()),
{
    let c = match cond {
        None => {
            return true;
        },
        Some(c) => c,
    };
    let hs = match headers {
        None => {
            return false;
        },
        Some(hs) => hs,
    };
    let lower = to_lowercase(c.as_str());
    let l = chars_of(lower.as_str());
    let mut i: usize = 0;
    while i < hs.items.len()
        invariant
            i <= hs.items.len(),
            l@ == lowercase_of(c@),
            cond.deep_view() == Some(c@),
            headers.deep_view() == Some(hs@),
            !header_hit_before(hs@, c@, i as int),
        decreases hs.items.len() - i,
    {
        if header_is_hit(&hs.items[i], l.as_slice(), Ghost(c@)) {
            assert(hs@[i as int] == hs.items[i as int]@);
            assert(header_hit(hs@[i as int], c@));
            assert(header_hit_before(hs@, c@, hs@.len() as int));
            return true;
        }
        assert(hs@[i as int] == hs.items[i as int]@);
        i += 1;
    }
    false
}

fn option_contains(hay: &str, needle: &Option<String>) -> (r: bool)
    ensures
        r == (needle is None || contains_seq(hay@, needle->0@)),
{
    match needle {
        None => true,
        Some(n) => contains(hay, n.as_str()),
    }
}

fn option_equals(text: &str, wanted: &Option<String>) -> (r: bool)
    ensures
        r == (wanted is None || wanted->0@ == text@),
{
    match wanted {
        None => true,
        Some(w) => str_eq(w.as_str(), text),
    }
}

/// The verdict of `breakpoint` on `traffic` in the direction
/// `traffic_type`. The result depends on nothing but the three arguments.
pub fn matches_breakpoint(breakpoint: &Breakpoint, traffic: &Traffic, traffic_type: &str) -> (r:
    BreakpointMatchResult)
    ensures
        r == evaluate(breakpoint@, traffic@, traffic_type@),
{
    let c = &breakpoint.conditions;
    let request = str_eq(traffic_type, "request");
    let response = str_eq(traffic_type, "response");
    let enabled = (request && c.req_enable) || (!request && response && c.res_enable);
    if !enabled {
        return BreakpointMatchResult::NoMatch;
    }
    if !option_contains(traffic.uri.as_str(), &c.url) || !option_equals(
        traffic.method.as_str(),
        &c.method,
    ) {
        return BreakpointMatchResult::NoMatch;
    }
    let none: Option<String> = None;
    let (header_cond, body_cond) = if request {
        match &c.request {
            Some(r) => (&r.headers, &r.body),
            None => (&none, &none),
        }
    } else {
        match &c.response {
            Some(r) => (&r.headers, &r.body),
            None => (&none, &none),
        }
    };
    let headers = if request {
        &traffic.req_headers
    } else {
        &traffic.res_headers
    };
    if !headers_are_hit(headers, header_cond) {
        return BreakpointMatchResult::NoMatch;
    }
    if body_cond.is_some() {
        BreakpointMatchResult::HeaderOnlyMatch
    } else {
        BreakpointMatchResult::FullMatch
    }
}

/// Rule `i` is switched on and matches in full.
pub open spec fn full_at(
    rules: Seq<BreakpointView>,
    tx: TrafficView,
    traffic_type: Seq<char>,
    i: int,
) -> bool {
    0 <= i < rules.len() && rules[i].enabled && evaluate(rules[i], tx, traffic_type)
        == BreakpointMatchResult::FullMatch
}

/// The first rule at or after `from` that is switched on and matches in
/// full.
pub open spec fn first_full(
    rules: Seq<BreakpointView>,
    tx: TrafficView,
    traffic_type: Seq<char>,
    from: int,
) -> Option<int>
    decreases rules.len() - from,
{
    if from < 0 || from >= rules.len() {
        None
    } else if full_at(rules, tx, traffic_type, from) {
        Some(from)
    } else {
        first_full(rules, tx, traffic_type, from + 1)
    }
}

/// The rules among the first `n` that are switched on and match on the head
/// only, in their order.
pub open spec fn head_candidates(
    rules: Seq<BreakpointView>,
    tx: TrafficView,
    traffic_type: Seq<char>,
    n: int,
) -> Seq<BreakpointView>
    decreases n,
{
    if n <= 0 || n > rules.len() {
        Seq::empty()
    } else {
        let rest = head_candidates(rules, tx, traffic_type, n - 1);
        if rules[n - 1].enabled && evaluate(rules[n - 1], tx, traffic_type)
            == BreakpointMatchResult::HeaderOnlyMatch {
            rest.push(rules[n - 1])
        } else {
            rest
        }
    }
}

/// The verdict of the engine: nothing while the tool is off; the first rule
/// that matches in full, alone; else the rules that match on the head, if
/// there are any.
pub open spec fn engine_verdict(
    rules: Seq<BreakpointView>,
    tool_enabled: bool,
    tx: TrafficView,
    traffic_type: Seq<char>,
) -> Option<(Seq<BreakpointView>, BreakpointMatchResult)> {
    if !tool_enabled {
        None
    } else {
        match first_full(rules, tx, traffic_type, 0) {
            Some(i) => Some((seq![rules[i]], BreakpointMatchResult::FullMatch)),
            None => {
                let c = head_candidates(rules, tx, traffic_type, rules.len() as int);
                if c.len() > 0 {
                    Some((c, BreakpointMatchResult::HeaderOnlyMatch))
                } else {
                    None
                }
            },
        }
    }
}

/// Tries the rules of `breakpoints` on `traffic` in the direction
/// `traffic_type`.
pub fn check_breakpoints(breakpoints: &BreakpointsConfig, traffic: &Traffic, traffic_type: &str) -> (r:
    Option<(Vec<Breakpoint>, BreakpointMatchResult)>)
    ensures
        match (
            engine_verdict(
                breakpoints.breakpoints.deep_view(),
                breakpoints.tool_enabled,
                traffic@,
                traffic_type@,
            ),
            r,
        ) {
            (Some((rules, verdict)), Some((list, v))) => list.deep_view() == rules && v == verdict,
            (None, None) => true,
            _ => false,
        },
{
    if !breakpoints.tool_enabled {
        return None;
    }
    let ghost rules = breakpoints.breakpoints.deep_view();
    let mut found: Vec<Breakpoint> = Vec::new();
    let mut i: usize = 0;
    while i < breakpoints.breakpoints.len()
        invariant
            i <= breakpoints.breakpoints.len(),
            breakpoints.tool_enabled,
            rules == breakpoints.breakpoints.deep_view(),
            first_full(rules, traffic@, traffic_type@, 0) == first_full(
                rules,
                traffic@,
                traffic_type@,
                i as int,
            ),
            found.deep_view() == head_candidates(rules, traffic@, traffic_type@, i as int),
        decreases breakpoints.breakpoints.len() - i,
    {
        let rule = &breakpoints.breakpoints[i];
        assert(rules[i as int] == rule@);
        let ghost before = found.deep_view();
        if rule.enabled {
            match matches_breakpoint(rule, traffic, traffic_type) {
                BreakpointMatchResult::FullMatch => {
                    let mut only: Vec<Breakpoint> = Vec::new();
                    only.push(rule.clone());
                    assert(only.deep_view() =~= seq![rules[i as int]]);
                    return Some((only, BreakpointMatchResult::FullMatch));
                },
                BreakpointMatchResult::HeaderOnlyMatch => {
                    found.push(rule.clone());
                    assert(found.deep_view() =~= before.push(rule@));
                },
                BreakpointMatchResult::NoMatch => {},
            }
        }
        i += 1;
    }
    if found.len() > 0 {
        Some((found, BreakpointMatchResult::HeaderOnlyMatch))
    } else {
        None
    }
}

/// Whether `rule` asks for a body text in the direction `breakpoint_type`
/// that `body` contains.
pub open spec fn body_hit(rule: BreakpointView, body: Seq<char>, breakpoint_type: Seq<char>) -> bool {
    let c = rule.conditions;
    if breakpoint_type == "request"@ {
        c.req_body is Some && contains_seq(body, c.req_body->0)
    } else if breakpoint_type == "response"@ {
        c.res_body is Some && contains_seq(body, c.res_body->0)
    } else {
        false
    }
}

/// Whether one of the first `n` rules is hit by the body.
pub open spec fn body_hit_before(
    rules: Seq<BreakpointView>,
    body: Seq<char>,
    breakpoint_type: Seq<char>,
    n: int,
) -> bool {
    exists|i: int| 0 <= i < n && i < rules.len() && body_hit(#[trigger] rules[i], body, breakpoint_type)
}

/// The body phase of the engine: whether the decoded body contains the body
/// text of one of the candidate rules. A candidate without a body text for
/// this direction is no hit.
pub fn check_body_breakpoints(body: &Body, breakpoints: &Vec<Breakpoint>, breakpoint_type: &str) -> (r:
    bool)
    ensures
        r == body_hit_before(
            breakpoints.deep_view(),
            body.value@,
            breakpoint_type@,
            breakpoints.len() as int,
        ),
{
    let request = str_eq(breakpoint_type, "request");
    let response = str_eq(breakpoint_type, "response");
    let ghost rules = breakpoints.deep_view();
    let mut i: usize = 0;
    while i < breakpoints.len()
        invariant
            i <= breakpoints.len(),
            rules == breakpoints.deep_view(),
            request == (breakpoint_type@ == "request"@),
            response == (breakpoint_type@ == "response"@),
            !body_hit_before(rules, body.value@, breakpoint_type@, i as int),
        decreases breakpoints.len() - i,
    {
        let c = &breakpoints[i].conditions;
        assert(rules[i as int] == breakpoints[i as int]@);
        let wanted: Option<&String> = if request {
            match &c.request {
                Some(r) => r.body.as_ref(),
                None => None,
            }
        } else if response {
            match &c.response {
                Some(r) => r.body.as_ref(),
                None => None,
            }
        } else {
            None
        };
        match wanted {
            Some(w) => {
                if contains(body.value.as_str(), w.as_str()) {
                    assert(body_hit(rules[i as int], body.value@, breakpoint_type@));
                    return true;
                }
            },
            None => {},
        }
        i += 1;
    }
    false
}

/// A change that the operator asks for on a suspended transaction. What is
/// absent stays as it is. `modified_type` says whose headers are meant:
/// `"request"`, or anything else for the response.
#[derive(Debug)]
pub struct TrafficModification {
    pub id: String,
    pub modified_type: String,
    pub url: Option<String>,
    pub method: Option<String>,
    pub modified_headers: Option<Vec<(String, String)>>,
    pub modified_body: Option<String>,
}

/// A change as plain values.
pub struct ModificationView {
    pub id: Seq<char>,
    pub modified_type: Seq<char>,
    pub url: Option<Seq<char>>,
    pub method: Option<Seq<char>>,
    pub headers: Option<Seq<(Seq<char>, Seq<char>)>>,
    pub body: Option<Seq<char>>,
}

impl View for TrafficModification {
    type V = ModificationView;

    open spec fn view(&self) -> ModificationView {
        ModificationView {
            id: self.id@,
            modified_type: self.modified_type@,
            url: self.url.deep_view(),
            method: self.method.deep_view(),
            headers: self.modified_headers.deep_view(),
            body: self.modified_body.deep_view(),
        }
    }
}

/// Two header names that differ at most in letter case.
pub open spec fn same_name(a: Seq<char>, b: Seq<char>) -> bool {
    lowercase_of(a) == lowercase_of(b)
}

/// The first header at or after `from` whose name is `name`, letter case
/// aside.
pub open spec fn first_named(headers: Seq<HeaderView>, name: Seq<char>, from: int) -> Option<int>
    decreases headers.len() - from,
{
    if from < 0 || from >= headers.len() {
        None
    } else if same_name(headers[from].name, name) {
        Some(from)
    } else {
        first_named(headers, name, from + 1)
    }
}

/// One header of a change merged in: the first header of that name takes
/// the new value and keeps its place and spelling; without one, the header
/// is added at the end.
pub open spec fn merge_one(headers: Seq<HeaderView>, name: Seq<char>, value: Seq<char>) -> Seq<
    HeaderView,
> {
    match first_named(headers, name, 0) {
        Some(i) => headers.update(i, HeaderView { name: headers[i].name, value }),
        None => headers.push(HeaderView { name, value }),
    }
}

/// The first `n` headers of a change merged in, one after the other.
pub open spec fn merge_all(
    headers: Seq<HeaderView>,
    patch: Seq<(Seq<char>, Seq<char>)>,
    n: int,
) -> Seq<HeaderView>
    decreases n,
{
    if n <= 0 || n > patch.len() {
        headers
    } else {
        let entry = patch[n - 1];
        merge_one(merge_all(headers, patch, n - 1), entry.0, entry.1)
    }
}

/// The headers of one direction after a change.
pub open spec fn merged_headers(
    headers: Option<Seq<HeaderView>>,
    patch: Option<Seq<(Seq<char>, Seq<char>)>>,
) -> Option<Seq<HeaderView>> {
    match (headers, patch) {
        (Some(h), Some(p)) => Some(merge_all(h, p, p.len() as int)),
        _ => headers,
    }
}

/// The transaction after a change. A closed transaction takes none.
pub open spec fn modified(t: TrafficView, m: ModificationView) -> TrafficView {
    if t.terminal() {
        t
    } else {
        let request = m.modified_type == "request"@;
        TrafficView {
            uri: match m.url {
                Some(u) => u,
                None => t.uri,
            },
            method: match m.method {
                Some(v) => v,
                None => t.method,
            },
            req_headers: if request {
                merged_headers(t.req_headers, m.headers)
            } else {
                t.req_headers
            },
            res_headers: if request {
                t.res_headers
            } else {
                merged_headers(t.res_headers, m.headers)
            },
            ..t
        }
    }
}

/// The body after a change: the bytes of the new text where one is given.
pub open spec fn modified_body(body: Option<Seq<u8>>, m: ModificationView) -> Option<Seq<u8>> {
    match m.body {
        Some(text) => Some(vstd::utf8::encode_utf8(text)),
        None => body,
    }
}

fn merge_header(headers: &mut Headers, name: &str, value: &str)
    ensures
        final(headers)@ == merge_one(old(headers)@, name@, value@),
{
    let wanted = to_lowercase(name);
    let mut i: usize = 0;
    while i < headers.items.len()
        invariant
            i <= headers.items.len(),
            *headers == *old(headers),
            wanted@ == lowercase_of(name@),
            first_named(headers@, name@, 0) == first_named(headers@, name@, i as int),
        decreases headers.items.len() - i,
    {
        assert(headers@[i as int] == headers.items[i as int]@);
        let here = to_lowercase(headers.items[i].name.as_str());
        if here == wanted {
            let kept = headers.items[i].name.clone();
            let ghost before = headers@;
            headers.items.set(i, Header { name: kept, value: String::from_str(value) });
            assert(headers@ =~= before.update(
                i as int,
                HeaderView { name: before[i as int].name, value: value@ },
            ));
            return ;
        }
        i += 1;
    }
    let ghost before = headers@;
    headers.items.push(Header { name: String::from_str(name), value: String::from_str(value) });
    assert(headers@ =~= before.push(HeaderView { name: name@, value: value@ }));
}

fn merge_headers(headers: &mut Option<Headers>, patch: &Option<Vec<(String, String)>>)
    ensures
        final(headers).deep_view() == merged_headers(old(headers).deep_view(), patch.deep_view()),
{
    let p = match patch {
        Some(p) => p,
        None => {
            return ;
        },
    };
    let mut hs = match headers.take() {
        Some(hs) => hs,
        None => {
            return ;
        },
    };
    let ghost start = hs@;
    let mut k: usize = 0;
    while k < p.len()
        invariant
            k <= p.len(),
            hs@ == merge_all(start, p.deep_view(), k as int),
        decreases p.len() - k,
    {
        assert(p.deep_view()[k as int] == (p[k as int].0@, p[k as int].1@));
        merge_header(&mut hs, p[k].0.as_str(), p[k].1.as_str());
        k += 1;
    }
    *headers = Some(hs);
}

/// Applies `modification` to a suspended transaction and its body.
pub fn apply_modification(
    traffic: &mut Traffic,
    body: &mut Option<Vec<u8>>,
    modification: &TrafficModification,
)
    ensures
        final(traffic)@ == modified(old(traffic)@, modification@),
        final(body).deep_view() == modified_body(old(body).deep_view(), modification@),
{
    if let Some(text) = &modification.modified_body {
        *body = Some(text.as_str().as_bytes_vec());
    }
    if traffic.transaction_state.is_terminal() {
        return ;
    }
    if str_eq(modification.modified_type.as_str(), "request") {
        merge_headers(&mut traffic.req_headers, &modification.modified_headers);
    } else {
        merge_headers(&mut traffic.res_headers, &modification.modified_headers);
    }
    if let Some(url) = &modification.url {
        traffic.uri = url.clone();
    }
    if let Some(method) = &modification.method {
        traffic.method = method.clone();
    }
}

/// A suspended transaction: the record under modification, its decoded
/// body, and whether the operator has already let it go on.
#[derive(Debug)]
pub struct PausedTrafficInfo {
    pub id: String,
    pub traffic: Traffic,
    pub body: Option<Vec<u8>>,
    pub resumed: bool,
}

/// A suspended transaction as plain values.
pub struct PausedView {
    pub id: Seq<char>,
    pub traffic: TrafficView,
    pub body: Option<Seq<u8>>,
    pub resumed: bool,
}

impl View for PausedTrafficInfo {
    type V = PausedView;

    open spec fn view(&self) -> PausedView {
        PausedView {
            id: self.id@,
            traffic: self.traffic@,
            body: self.body.deep_view(),
            resumed: self.resumed,
        }
    }
}

impl DeepView for PausedTrafficInfo {
    type V = PausedView;

    open spec fn deep_view(&self) -> PausedView {
        self@
    }
}

/// The first entry at or after `from` that is kept under `id`.
pub open spec fn position(entries: Seq<PausedView>, id: Seq<char>, from: int) -> Option<int>
    decreases entries.len() - from,
{
    if from < 0 || from >= entries.len() {
        None
    } else if entries[from].id == id {
        Some(from)
    } else {
        position(entries, id, from + 1)
    }
}

/// No two entries are kept under one id.
pub open spec fn distinct_ids(entries: Seq<PausedView>) -> bool {
    forall|i: int, j: int|
        0 <= i < j < entries.len() ==> (#[trigger] entries[i]).id != (#[trigger] entries[j]).id
}

/// What the registry answers for an id that it does not hold, or that has
/// been let go.
pub open spec fn not_found() -> Seq<char> {
    "Traffic not found"@
}

/// The suspended transactions, each under its pause id.
#[derive(Debug)]
pub struct PauseRegistry {
    pub entries: Vec<PausedTrafficInfo>,
}

impl View for PauseRegistry {
    type V = Seq<PausedView>;

    open spec fn view(&self) -> Seq<PausedView> {
        self.entries.deep_view()
    }
}

impl PauseRegistry {
    pub fn new() -> (r: Self)
        ensures
            r@ == Seq::<PausedView>::empty(),
    {
        let r = PauseRegistry { entries: Vec::new() };
        assert(r@ =~= Seq::<PausedView>::empty());
        r
    }

    fn find(&self, id: &str) -> (r: Option<usize>)
        ensures
            match r {
                Some(i) => position(self@, id@, 0) == Some(i as int) && i < self.entries.len()
                    && self@[i as int]
                    == self.entries[i as int]@,
                None => position(self@, id@, 0) is None,
            },
    {
        let mut i: usize = 0;
        while i < self.entries.len()
            invariant
                i <= self.entries.len(),
                position(self@, id@, 0) == position(self@, id@, i as int),
            decreases self.entries.len() - i,
        {
            assert(self@[i as int] == self.entries[i as int]@);
            if str_eq(self.entries[i].id.as_str(), id) {
                return Some(i);
            }
            i += 1;
        }
        None
    }

    /// Whether a transaction is kept under `id`.
    pub fn contains(&self, id: &str) -> (r: bool)
        ensures
            r == position(self@, id@, 0) is Some,
    {
        self.find(id).is_some()
    }

    /// Suspends a transaction under `id`. Where the id is taken the
    /// registry stays as it is and the answer is `false`.
    pub fn insert(&mut self, id: &str, traffic: Traffic, body: Option<Vec<u8>>) -> (inserted: bool)
        ensures
            inserted == position(old(self)@, id@, 0) is None,
            inserted ==> final(self)@ == old(self)@.push(
                PausedView { id: id@, traffic: traffic@, body: body.deep_view(), resumed: false },
            ),
            !inserted ==> final(self)@ == old(self)@,
            distinct_ids(old(self)@) ==> distinct_ids(final(self)@),
    {
        if self.find(id).is_some() {
            return false;
        }
        let ghost before = self@;
        proof {
            lemma_position_none(before, id@, 0);
        }
        self.entries.push(
            PausedTrafficInfo { id: String::from_str(id), traffic, body, resumed: false },
        );
        assert(self@ =~= before.push(
            PausedView { id: id@, traffic: traffic@, body: body.deep_view(), resumed: false },
        ));
        true
    }

    /// Merges a change into the transaction kept under its id. An id that is
    /// not kept, or that has been let go, is refused.
    pub fn modify(&mut self, modification: &TrafficModification) -> (r: Result<(), String>)
        ensures
            match position(old(self)@, modification.id@, 0) {
                Some(i) if !old(self)@[i].resumed => r is Ok && final(self)@ == old(self)@.update(
                    i,
                    PausedView {
                        traffic: modified(old(self)@[i].traffic, modification@),
                        body: modified_body(old(self)@[i].body, modification@),
                        ..old(self)@[i]
                    },
                ),
                _ => r is Err && r->Err_0@ == not_found() && final(self)@ == old(self)@,
            },
            distinct_ids(old(self)@) ==> distinct_ids(final(self)@),
    {
        let i = match self.find(modification.id.as_str()) {
            Some(i) => i,
            None => {
                return Err(String::from_str("Traffic not found"));
            },
        };
        if self.entries[i].resumed {
            return Err(String::from_str("Traffic not found"));
        }
        let ghost before = self@;
        let mut entry = self.entries.remove(i);
        assert(entry@ == before[i as int]);
        apply_modification(&mut entry.traffic, &mut entry.body, modification);
        let ghost after = entry@;
        self.entries.insert(i, entry);
        assert(self@ =~= before.update(i as int, after));
        Ok(())
    }

    /// Lets the transaction kept under `id` go on. From then on it takes no
    /// change.
    pub fn resume(&mut self, id: &str) -> (r: Result<(), String>)
        ensures
            match position(old(self)@, id@, 0) {
                Some(i) => r is Ok && final(self)@ == old(self)@.update(
                    i,
                    PausedView { resumed: true, ..old(self)@[i] },
                ),
                None => r is Err && r->Err_0@ == not_found() && final(self)@ == old(self)@,
            },
            distinct_ids(old(self)@) ==> distinct_ids(final(self)@),
    {
        let i = match self.find(id) {
            Some(i) => i,
            None => {
                return Err(String::from_str("Traffic not found"));
            },
        };
        let ghost before = self@;
        let mut entry = self.entries.remove(i);
        assert(entry@ == before[i as int]);
        entry.resumed = true;
        let ghost after = entry@;
        self.entries.insert(i, entry);
        assert(self@ =~= before.update(i as int, after));
        Ok(())
    }

    /// Takes the transaction kept under `id` out of the registry, as the
    /// changes have left it.
    pub fn take(&mut self, id: &str) -> (r: Option<PausedTrafficInfo>)
        ensures
            match position(old(self)@, id@, 0) {
                Some(i) => r is Some && r->0@ == old(self)@[i] && final(self)@ == old(self)@.remove(i),
                None => r is None && final(self)@ == old(self)@,
            },
            distinct_ids(old(self)@) ==> distinct_ids(final(self)@),
    {
        let i = match self.find(id) {
            Some(i) => i,
            None => {
                return None;
            },
        };
        let ghost before = self@;
        let entry = self.entries.remove(i);
        assert(entry@ == before[i as int]);
        assert(self@ =~= before.remove(i as int));
        Some(entry)
    }
}

/// Where no entry from `from` on is kept under `id`, none of them has it.
pub proof fn lemma_position_none(entries: Seq<PausedView>, id: Seq<char>, from: int)
    requires
        0 <= from,
        position(entries, id, from) is None,
    ensures
        forall|j: int| from <= j < entries.len() ==> (#[trigger] entries[j]).id != id,
    decreases entries.len() - from,
{
    if from < entries.len() {
        lemma_position_none(entries, id, from + 1);
    }
}

/// A head that was handed out for publishing: the first one of a gid opens
/// it, every later one updates it.
pub enum HeadEvent {
    Opened(u64),
    Updated(u64),
}

impl HeadEvent {
    pub open spec fn gid(self) -> u64 {
        match self {
            HeadEvent::Opened(g) => g,
            HeadEvent::Updated(g) => g,
        }
    }
}

/// The gid `g` was opened by one of the first `n` events.
pub open spec fn opened_before(events: Seq<HeadEvent>, g: u64, n: int) -> bool {
    exists|i: int| 0 <= i < n && i < events.len() && #[trigger] events[i] == HeadEvent::Opened(g)
}

/// The order of the published heads: every gid below `next` has been opened,
/// the gids are opened in rising order, none at or above `next` occurs, and
/// an update never comes before the opening of its gid.
pub open spec fn heads_in_order(events: Seq<HeadEvent>, next: u64) -> bool {
    &&& forall|i: int| 0 <= i < events.len() ==> (#[trigger] events[i]).gid() < next
    &&& forall|i: int, j: int|
        0 <= i < j < events.len() && #[trigger] events[i] is Opened && #[trigger] events[j] is Opened
            ==> events[i].gid() < events[j].gid()
    &&& forall|j: int|
        0 <= j < events.len() && #[trigger] events[j] is Updated ==> opened_before(
            events,
            events[j].gid(),
            j,
        )
    &&& forall|g: u64| g < next ==> #[trigger] opened_before(events, g, events.len() as int)
}

/// The order of the store: every gid under which a record is kept lies
/// below `next`, and every record that is kept is one for persisting.
pub open spec fn store_in_order(entries: Map<u64, TrafficView>, next: u64) -> bool {
    forall|k: u64| #[trigger] entries.contains_key(k) ==> k < next && entries[k].valid
}

/// What is answered for a record that is not kept for persisting.
pub open spec fn invalid_traffic() -> Seq<char> {
    "Invalid traffic"@
}

/// The number of records that the store is made for.
pub const STORE_CAPACITY: u64 = 10000;

/// The state of one engine: the transaction store, the registry of
/// suspended transactions, the session that is monitored (empty while
/// monitoring is off) and the next gid.
pub struct State {
    pub print_mode: PrintMode,
    pub traffics: Cache<u64, Arc<Traffic>>,
    pub paused_traffic: PauseRegistry,
    pub monitor_traffic: String,
    pub next_id: u64,
    pub events: Ghost<Seq<HeadEvent>>,
}

impl State {
    /// The records in the store, by gid.
    pub open spec fn entries(&self) -> Map<u64, TrafficView> {
        cache_entries(self.traffics)
    }

    /// The invariant of the engine state: no pause id is used twice, the
    /// heads have been handed out in order, and the store holds only
    /// records that are kept for persisting, each under a gid that has been
    /// given out.
    pub open spec fn wf(&self) -> bool {
        &&& distinct_ids(self.paused_traffic@)
        &&& heads_in_order(self.events@, self.next_id)
        &&& store_in_order(self.entries(), self.next_id)
    }

    /// A fresh engine state: nothing stored, nothing suspended, monitoring
    /// off.
    pub fn new(print_mode: PrintMode) -> (s: State)
        ensures
            s.wf(),
            s.entries() == no_entries(),
            settled(s.traffics),
            cache_capacity(s.traffics) == STORE_CAPACITY,
            s.paused_traffic@.len() == 0,
            s.monitor_traffic@.len() == 0,
            s.next_id == 0,
            s.events@.len() == 0,
            s.print_mode == print_mode,
    {
        State {
            print_mode,
            traffics: cache_new(STORE_CAPACITY),
            paused_traffic: PauseRegistry::new(),
            monitor_traffic: String::new(),
            next_id: 0,
            events: Ghost(Seq::empty()),
        }
    }

    /// Chooses the session that is monitored; the empty string switches
    /// monitoring off.
    pub fn set_monitor_traffic(&mut self, traffic: String) -> (r: Result<(), String>)
        ensures
            r is Ok,
            final(self).monitor_traffic@ == traffic@,
            final(self).traffics == old(self).traffics,
            final(self).paused_traffic == old(self).paused_traffic,
            final(self).next_id == old(self).next_id,
            final(self).events == old(self).events,
    {
        self.monitor_traffic = traffic;
        Ok(())
    }

    /// Whether traffic is recorded.
    pub fn is_monitor_traffic(&self) -> (r: bool)
        ensures
            r == (self.monitor_traffic@.len() > 0),
    {
        !self.monitor_traffic.as_str().is_empty()
    }

    /// The head of `traffic` for publishing as an update of the transaction
    /// `id`. A record that is not kept for persisting is refused, and so is
    /// an id that was never opened.
    pub fn create_traffic_head(&mut self, traffic: &Traffic, id: u64, session_id: &str) -> (r: Result<
        TrafficHead,
        String,
    >)
        ensures
            traffic.valid && id < old(self).next_id ==> r is Ok && r->Ok_0@ == head_of(
                traffic@,
                id,
                session_id@,
            ) && final(self).events@ == old(self).events@.push(HeadEvent::Updated(id)),
            !traffic.valid ==> r is Err && r->Err_0@ == invalid_traffic(),
            !(traffic.valid && id < old(self).next_id) ==> r is Err && final(self).events@
                == old(self).events@,
            final(self).traffics == old(self).traffics,
            final(self).paused_traffic == old(self).paused_traffic,
            final(self).next_id == old(self).next_id,
            final(self).monitor_traffic == old(self).monitor_traffic,
            old(self).wf() ==> final(self).wf(),
    {
        if !traffic.valid {
            return Err(String::from_str("Invalid traffic"));
        }
        if id >= self.next_id {
            return Err(String::from_str("Traffic was never opened"));
        }
        let head = traffic.head(id, session_id);
        proof {
            let before = self.events@;
            let after = before.push(HeadEvent::Updated(id));
            if old(self).wf() {
                lemma_events_grow(before, HeadEvent::Updated(id), self.next_id);
            }
            self.events@ = after;
        }
        Ok(head)
    }

    /// Stores a new record under the next gid and hands out the head that
    /// opens it. The record is stored with its gid and session.
    pub fn add_traffic(&mut self, traffic: Traffic, session_id: &str) -> (r: Result<TrafficHead, String>)
        ensures
            traffic.valid && old(self).next_id < u64::MAX ==> {
                let stored = TrafficView {
                    gid: old(self).next_id,
                    session_id: session_id@,
                    ..traffic@
                };
                &&& r is Ok
                &&& r->Ok_0@ == head_of(stored, old(self).next_id, session_id@)
                &&& final(self).next_id == old(self).next_id + 1
                &&& final(self).events@ == old(self).events@.push(
                    HeadEvent::Opened(old(self).next_id),
                )
                &&& final(self).entries().submap_of(
                    old(self).entries().insert(old(self).next_id, stored),
                )
                &&& takes(old(self).traffics, old(self).next_id) ==> final(self).entries()
                    == old(self).entries().insert(old(self).next_id, stored) && settled(
                    final(self).traffics,
                )
            },
            old(self).wf() ==> !old(self).entries().contains_key(old(self).next_id),
            !traffic.valid ==> r is Err && r->Err_0@ == invalid_traffic(),
            !(traffic.valid && old(self).next_id < u64::MAX) ==> r is Err && final(self).traffics
                == old(self).traffics && final(self).next_id == old(self).next_id
                && final(self).events@ == old(self).events@,
            cache_capacity(final(self).traffics) == cache_capacity(old(self).traffics),
            final(self).paused_traffic == old(self).paused_traffic,
            final(self).monitor_traffic == old(self).monitor_traffic,
            old(self).wf() ==> final(self).wf(),
    {
        if !traffic.valid {
            return Err(String::from_str("Invalid traffic"));
        }
        if self.next_id == u64::MAX {
            return Err(String::from_str("No gid is left"));
        }
        let id = self.next_id;
        let mut record = traffic;
        record.gid = id;
        record.session_id = String::from_str(session_id);
        let head = record.head(id, session_id);
        let ghost stored = record@;
        cache_insert(&mut self.traffics, id, Arc::new(record));
        self.next_id = id + 1;
        proof {
            let before = self.events@;
            if old(self).wf() {
                lemma_events_open(before, id);
                lemma_store_grows(old(self).entries(), self.entries(), id, stored, self.next_id);
            }
            self.events@ = before.push(HeadEvent::Opened(id));
        }
        Ok(head)
    }

    /// The record kept under `id`.
    pub fn get_traffic(&mut self, id: u64) -> (r: Result<Arc<Traffic>, String>)
        ensures
            r matches Ok(t) ==> old(self).entries().contains_key(id) && t@ == old(self).entries()[id],
            r matches Err(e) ==> e@ == "Traffic with id "@ + decimal(id as nat) + " not found"@,
            r is Ok <==> old(self).entries().contains_key(id),
            settled(old(self).traffics) ==> final(self).entries() == old(self).entries() && settled(
                final(self).traffics,
            ),
            final(self).entries().submap_of(old(self).entries()),
            cache_capacity(final(self).traffics) == cache_capacity(old(self).traffics),
            final(self).paused_traffic == old(self).paused_traffic,
            final(self).monitor_traffic == old(self).monitor_traffic,
            final(self).next_id == old(self).next_id,
            final(self).events == old(self).events,
            old(self).wf() ==> final(self).wf(),
    {
        proof {
            lemma_store_shrinks(old(self).entries(), self.next_id);
        }
        match cache_get(&mut self.traffics, id) {
            Some(t) => Ok(t),
            None => {
                let mut text = String::from_str("Traffic with id ");
                let number = decimal_string(id);
                text.append(number.as_str());
                text.append(" not found");
                Err(text)
            },
        }
    }

    /// Drops the record kept under `id`.
    pub fn delete_traffic(&mut self, id: u64) -> (r: Result<(), String>)
        ensures
            r is Ok ==> old(self).entries().contains_key(id),
            r matches Err(e) ==> e@ == not_found(),
            r is Ok <==> old(self).entries().contains_key(id),
            settled(old(self).traffics) ==> final(self).entries() == old(self).entries().remove(id)
                && settled(final(self).traffics),
            final(self).entries().submap_of(old(self).entries().remove(id)),
            cache_capacity(final(self).traffics) == cache_capacity(old(self).traffics),
            final(self).paused_traffic == old(self).paused_traffic,
            final(self).monitor_traffic == old(self).monitor_traffic,
            final(self).next_id == old(self).next_id,
            final(self).events == old(self).events,
            old(self).wf() ==> final(self).wf(),
    {
        proof {
            lemma_store_shrinks(old(self).entries(), self.next_id);
        }
        let r = cache_remove(&mut self.traffics, id);
        assert(self.entries().submap_of(old(self).entries())) by {
            assert(old(self).entries().remove(id).submap_of(old(self).entries()));
            assert forall|k: u64| #[trigger] self.entries().dom().contains(k) implies old(
                self,
            ).entries().dom().contains(k) && self.entries()[k] == old(self).entries()[k] by {
                assert(old(self).entries().remove(id).dom().contains(k));
            }
        }
        match r {
            Some(_) => Ok(()),
            None => Err(String::from_str("Traffic not found")),
        }
    }

    /// Stores the record of a transaction that has been opened under `id`,
    /// in place of the one kept there, and hands out the head that updates
    /// it. A record that is not kept for persisting, and an id that was
    /// never given out, are passed over: nothing is stored and no head is
    /// handed out.
    pub fn update_traffic(&mut self, traffic: &Traffic, id: u64, session_id: &str) -> (r: Option<
        TrafficHead,
    >)
        ensures
            r is Some <==> traffic.valid && id < old(self).next_id,
            r matches Some(h) ==> {
                &&& h@ == head_of(traffic@, id, session_id@)
                &&& final(self).events@ == old(self).events@.push(HeadEvent::Updated(id))
                &&& final(self).entries().submap_of(old(self).entries().insert(id, traffic@))
                &&& takes(old(self).traffics, id) ==> final(self).entries()
                    == old(self).entries().insert(id, traffic@) && settled(final(self).traffics)
            },
            r is None ==> final(self).traffics == old(self).traffics && final(self).events@
                == old(self).events@,
            cache_capacity(final(self).traffics) == cache_capacity(old(self).traffics),
            final(self).paused_traffic == old(self).paused_traffic,
            final(self).monitor_traffic == old(self).monitor_traffic,
            final(self).next_id == old(self).next_id,
            old(self).wf() ==> final(self).wf(),
    {
        if !traffic.valid || id >= self.next_id {
            return None;
        }
        cache_insert(&mut self.traffics, id, Arc::new(traffic.clone()));
        proof {
            if old(self).wf() {
                lemma_store_grows(old(self).entries(), self.entries(), id, traffic@, self.next_id);
            }
        }
        match self.create_traffic_head(traffic, id, session_id) {
            Ok(head) => Some(head),
            Err(_) => None,
        }
    }

    /// Closes the record kept under `head_id` with the size of its decoded
    /// body, stores it as closed, and hands out its last head. Nothing
    /// happens where no record is kept under the gid.
    pub fn done_traffic(&mut self, head_id: u64, raw_size: u64, session_id: &str) -> (r: Result<
        TrafficHead,
        String,
    >)
        ensures
            r is Ok <==> old(self).entries().contains_key(head_id) && old(self).entries()[head_id].valid
                && head_id < old(self).next_id,
            old(self).wf() ==> (r is Ok <==> old(self).entries().contains_key(head_id)),
            r matches Ok(h) ==> {
                let closed = old(self).entries()[head_id].finalized(raw_size);
                &&& h@ == head_of(closed, head_id, session_id@)
                &&& final(self).events@ == old(self).events@.push(HeadEvent::Updated(head_id))
                &&& final(self).entries().submap_of(old(self).entries().insert(head_id, closed))
                &&& settled(old(self).traffics) ==> final(self).entries()
                    == old(self).entries().insert(head_id, closed) && settled(final(self).traffics)
            },
            r matches Err(e) ==> {
                &&& e@ == not_found()
                &&& final(self).events@ == old(self).events@
                &&& final(self).entries().submap_of(old(self).entries())
                &&& settled(old(self).traffics) ==> final(self).entries() == old(self).entries()
                    && settled(final(self).traffics)
            },
            cache_capacity(final(self).traffics) == cache_capacity(old(self).traffics),
            final(self).paused_traffic == old(self).paused_traffic,
            final(self).monitor_traffic == old(self).monitor_traffic,
            final(self).next_id == old(self).next_id,
            old(self).wf() ==> final(self).wf(),
    {
        proof {
            lemma_store_shrinks(old(self).entries(), self.next_id);
        }
        let kept = match cache_get(&mut self.traffics, head_id) {
            Some(t) => t,
            None => {
                return Err(String::from_str("Traffic not found"));
            },
        };
        let ghost middle = self.traffics;
        let mut record = Traffic::clone(&kept);
        record.done_res_body(raw_size);
        let ghost closed = record@;
        let updated = self.update_traffic(&record, head_id, session_id);
        proof {
            let first = old(self).entries();
            let now = self.entries();
            assert(closed == first[head_id].finalized(raw_size));
            if updated is Some {
                assert forall|k: u64| #[trigger] now.dom().contains(k) implies first.insert(
                    head_id,
                    closed,
                ).dom().contains(k) && now[k] == first.insert(head_id, closed)[k] by {
                    assert(cache_entries(middle).insert(head_id, closed).dom().contains(k));
                    if k != head_id {
                        assert(cache_entries(middle).dom().contains(k));
                    }
                }
                if settled(old(self).traffics) {
                    assert(takes(middle, head_id));
                }
            } else {
                assert(now == cache_entries(middle));
            }
        }
        match updated {
            Some(head) => Ok(head),
            None => Err(String::from_str("Traffic not found")),
        }
    }

    /// Takes over the records of `other`, each under its gid. An engine that
    /// has opened no transaction yet also goes on with the gids and the
    /// published heads of `other`. The state stays in order where it was
    /// fresh, or had given out every gid that `other` has.
    #[verifier::loop_isolation(false)]
    pub fn migrate_from(&mut self, other: &mut State)
        ensures
            drawn_from(final(self).entries(), old(self).entries(), old(other).entries()),
            settled(old(self).traffics) && old(self).entries() == no_entries() && settled(
                old(other).traffics,
            ) && old(other).entries().len() <= cache_capacity(old(self).traffics)
                ==> final(self).entries() == old(other).entries() && settled(final(self).traffics),
            final(other).traffics == old(other).traffics,
            cache_capacity(final(self).traffics) == cache_capacity(old(self).traffics),
            old(self).next_id == 0 ==> final(self).next_id == old(other).next_id
                && final(self).events@ == old(other).events@,
            old(self).next_id != 0 ==> final(self).next_id == old(self).next_id
                && final(self).events@ == old(self).events@,
            final(self).paused_traffic == old(self).paused_traffic,
            final(self).monitor_traffic == old(self).monitor_traffic,
            final(self).print_mode == old(self).print_mode,
            final(other).print_mode == old(other).print_mode,
            final(other).paused_traffic == old(other).paused_traffic,
            final(other).monitor_traffic == old(other).monitor_traffic,
            final(other).next_id == old(other).next_id,
            final(other).events == old(other).events,
            old(self).wf() && old(other).wf() && (old(self).next_id == 0 || old(other).next_id
                <= old(self).next_id) ==> final(self).wf(),
    {
        let items = cache_list(&other.traffics);
        proof {
            lemma_pairs_len(items.deep_view());
        }
        copy_into(&mut self.traffics, &items);
        proof {
            let now = self.entries();
            let listed = pairs_map(items.deep_view());
            let mine = old(self).entries();
            let theirs = old(other).entries();
            assert forall|k: u64| #[trigger] now.contains_key(k) implies (mine.contains_key(k)
                && now[k] == mine[k]) || (theirs.contains_key(k) && now[k] == theirs[k]) by {
                if listed.contains_key(k) {
                    lemma_submap_at(listed, old(other).entries(), k);
                }
            }
        }
        if self.next_id == 0 {
            self.next_id = other.next_id;
            proof {
                self.events@ = other.events@;
            }
        }
    }

    /// The heads of the records in the store, each under its gid and the
    /// given session, in the order of the store's own listing.
    #[verifier::loop_isolation(false)]
    pub fn list_heads(&mut self, session_id: &str) -> (r: Vec<TrafficHead>)
        ensures
            forall|i: int|
                0 <= i < r.len() ==> old(self).entries().contains_key((#[trigger] r[i]).id) && r[i]@
                    == head_of(old(self).entries()[r[i].id], r[i].id, session_id@),
            forall|i: int, j: int| 0 <= i < j < r.len() ==> (#[trigger] r[i]).id != (#[trigger] r[j]).id,
            settled(old(self).traffics) ==> r.len() == old(self).entries().len(),
            final(self).traffics == old(self).traffics,
            final(self).paused_traffic == old(self).paused_traffic,
            final(self).monitor_traffic == old(self).monitor_traffic,
            final(self).next_id == old(self).next_id,
            final(self).events == old(self).events,
    {
        let items = cache_list(&self.traffics);
        let heads = heads_of(&items, session_id);
        proof {
            let list = items.deep_view();
            lemma_pairs_len(list);
            assert forall|j: int| 0 <= j < heads.len() implies old(self).entries().contains_key(
                (#[trigger] heads[j]).id,
            ) && heads[j]@ == head_of(old(self).entries()[heads[j].id], heads[j].id, session_id@) by {
                assert(list[j] == (items[j].0, items[j].1@));
                lemma_pairs_get(list, j);
            }
            assert forall|i: int, j: int| 0 <= i < j < heads.len() implies (#[trigger] heads[i]).id != (
            #[trigger] heads[j]).id by {
                assert(list[i] == (items[i].0, items[i].1@));
                assert(list[j] == (items[j].0, items[j].1@));
            }
        }
        heads
    }

    /// Suspends a transaction under `id`; `false` where the id is taken.
    pub fn pause_with_id(&mut self, id: &str, traffic: Traffic, body: Option<Vec<u8>>) -> (inserted:
        bool)
        ensures
            inserted == position(old(self).paused_traffic@, id@, 0) is None,
            inserted ==> final(self).paused_traffic@ == old(self).paused_traffic@.push(
                PausedView { id: id@, traffic: traffic@, body: body.deep_view(), resumed: false },
            ),
            !inserted ==> final(self).paused_traffic@ == old(self).paused_traffic@,
            final(self).traffics == old(self).traffics,
            final(self).monitor_traffic == old(self).monitor_traffic,
            final(self).next_id == old(self).next_id,
            final(self).events == old(self).events,
            old(self).wf() ==> final(self).wf(),
    {
        self.paused_traffic.insert(id, traffic, body)
    }

    /// Suspends a transaction under a fresh pause id and gives the id back;
    /// nothing where the fresh id is already taken. The id is drawn at
    /// random, so only the registry decides when success is certain: while
    /// it holds no transaction no id is taken, and the transaction is
    /// suspended whatever id is drawn. What happens for each id is what
    /// `pause_with_id` says.
    pub fn pause(&mut self, traffic: Traffic, body: Option<Vec<u8>>) -> (r: Option<String>)
        ensures
            match r {
                Some(id) => position(old(self).paused_traffic@, id@, 0) is None
                    && final(self).paused_traffic@ == old(self).paused_traffic@.push(
                    PausedView { id: id@, traffic: traffic@, body: body.deep_view(), resumed: false },
                ),
                None => final(self).paused_traffic@ == old(self).paused_traffic@,
            },
            old(self).paused_traffic@.len() == 0 ==> r is Some,
            final(self).traffics == old(self).traffics,
            final(self).monitor_traffic == old(self).monitor_traffic,
            final(self).next_id == old(self).next_id,
            final(self).events == old(self).events,
            old(self).wf() ==> final(self).wf(),
    {
        let id = new_pause_id();
        if self.pause_with_id(id.as_str(), traffic, body) {
            Some(id)
        } else {
            None
        }
    }

    /// Merges a change into a suspended transaction.
    pub fn modify_paused_traffic(&mut self, modification: &TrafficModification) -> (r: Result<
        (),
        String,
    >)
        ensures
            match position(old(self).paused_traffic@, modification.id@, 0) {
                Some(i) if !old(self).paused_traffic@[i].resumed => r is Ok
                    && final(self).paused_traffic@ == old(self).paused_traffic@.update(
                    i,
                    PausedView {
                        traffic: modified(old(self).paused_traffic@[i].traffic, modification@),
                        body: modified_body(old(self).paused_traffic@[i].body, modification@),
                        ..old(self).paused_traffic@[i]
                    },
                ),
                _ => r is Err && r->Err_0@ == not_found()
                    && final(self).paused_traffic@ == old(self).paused_traffic@,
            },
            final(self).traffics == old(self).traffics,
            final(self).monitor_traffic == old(self).monitor_traffic,
            final(self).next_id == old(self).next_id,
            final(self).events == old(self).events,
            old(self).wf() ==> final(self).wf(),
    {
        self.paused_traffic.modify(modification)
    }

    /// Lets a suspended transaction go on.
    pub fn continue_traffic(&mut self, id: &str) -> (r: Result<(), String>)
        ensures
            match position(old(self).paused_traffic@, id@, 0) {
                Some(i) => r is Ok && final(self).paused_traffic@ == old(self).paused_traffic@.update(
                    i,
                    PausedView { resumed: true, ..old(self).paused_traffic@[i] },
                ),
                None => r is Err && r->Err_0@ == not_found()
                    && final(self).paused_traffic@ == old(self).paused_traffic@,
            },
            final(self).traffics == old(self).traffics,
            final(self).monitor_traffic == old(self).monitor_traffic,
            final(self).next_id == old(self).next_id,
            final(self).events == old(self).events,
            old(self).wf() ==> final(self).wf(),
    {
        self.paused_traffic.resume(id)
    }

    /// Tries the breakpoint rules on a transaction.
    pub fn check_breakpoints(
        &self,
        breakpoints: &BreakpointsConfig,
        traffic: &Traffic,
        traffic_type: &str,
    ) -> (r: Option<(Vec<Breakpoint>, BreakpointMatchResult)>)
        ensures
            match (
                engine_verdict(
                    breakpoints.breakpoints.deep_view(),
                    breakpoints.tool_enabled,
                    traffic@,
                    traffic_type@,
                ),
                r,
            ) {
                (Some((rules, verdict)), Some((list, v))) => list.deep_view() == rules && v == verdict,
                (None, None) => true,
                _ => false,
            },
    {
        check_breakpoints(breakpoints, traffic, traffic_type)
    }

    /// The body phase of the breakpoint rules.
    pub fn check_body_breakpoints(
        &self,
        body: &Body,
        breakpoints: &Vec<Breakpoint>,
        breakpoint_type: &str,
    ) -> (r: bool)
        ensures
            r == body_hit_before(
                breakpoints.deep_view(),
                body.value@,
                breakpoint_type@,
                breakpoints.len() as int,
            ),
    {
        check_body_breakpoints(body, breakpoints, breakpoint_type)
    }
}

/// Trusted: `Uuid::new_v4` of the uuid crate, written out with
/// `to_string`. The id is random: nothing is claimed of it.
#[verifier::external_body]
pub(crate) fn new_pause_id() -> String {
    uuid::Uuid::new_v4().to_string()
}

/// A store that gains at most one record, a valid one under a gid below
/// `next`, stays in order.
pub proof fn lemma_store_grows(
    before: Map<u64, TrafficView>,
    after: Map<u64, TrafficView>,
    id: u64,
    record: TrafficView,
    next: u64,
)
    requires
        after.submap_of(before.insert(id, record)),
        forall|k: u64| #[trigger] before.contains_key(k) ==> k < next && before[k].valid,
        id < next,
        record.valid,
    ensures
        store_in_order(after, next),
{
    assert forall|k: u64| #[trigger] after.contains_key(k) implies k < next && after[k].valid by {
        assert(before.insert(id, record).dom().contains(k));
        if k != id {
            assert(before.contains_key(k));
        }
    }
}

/// Every part of a store that is in order is in order.
pub proof fn lemma_store_shrinks(before: Map<u64, TrafficView>, next: u64)
    ensures
        store_in_order(before, next) ==> forall|after: Map<u64, TrafficView>| #[trigger]
            after.submap_of(before) ==> store_in_order(after, next),
{
    if store_in_order(before, next) {
        assert forall|after: Map<u64, TrafficView>| #[trigger]
            after.submap_of(before) implies store_in_order(after, next) by {
            assert forall|k: u64| #[trigger] after.contains_key(k) implies k < next
                && after[k].valid by {
                assert(before.dom().contains(k));
            }
        }
    }
}

/// An update of an opened gid keeps the heads in order.
pub proof fn lemma_events_grow(events: Seq<HeadEvent>, e: HeadEvent, next: u64)
    requires
        heads_in_order(events, next),
        e is Updated,
        e.gid() < next,
    ensures
        heads_in_order(events.push(e), next),
{
    let after = events.push(e);
    assert forall|g: u64, n: int| opened_before(events, g, n) implies opened_before(
        after,
        g,
        n,
    ) by {
        let i = choose|i: int|
            0 <= i < n && i < events.len() && #[trigger] events[i] == HeadEvent::Opened(g);
        assert(after[i] == HeadEvent::Opened(g));
    }
    assert forall|j: int| 0 <= j < after.len() && #[trigger] after[j] is Updated implies opened_before(
        after,
        after[j].gid(),
        j,
    ) by {
        if j < events.len() {
            assert(events[j] is Updated);
            assert(opened_before(events, events[j].gid(), j));
        } else {
            assert(opened_before(events, e.gid(), events.len() as int));
        }
    }
    assert forall|g: u64| g < next implies #[trigger] opened_before(after, g, after.len() as int) by {
        assert(opened_before(events, g, events.len() as int));
    }
    assert forall|i: int, j: int|
        0 <= i < j < after.len() && #[trigger] after[i] is Opened
            && #[trigger] after[j] is Opened implies after[i].gid()
        < after[j].gid() by {
        assert(events[i] is Opened && events[j] is Opened);
    }
}

/// The opening of the next gid keeps the heads in order.
pub proof fn lemma_events_open(events: Seq<HeadEvent>, next: u64)
    requires
        heads_in_order(events, next),
        next < u64::MAX,
    ensures
        heads_in_order(events.push(HeadEvent::Opened(next)), (next + 1) as u64),
{
    let e = HeadEvent::Opened(next);
    let after = events.push(e);
    assert forall|g: u64, n: int| opened_before(events, g, n) implies opened_before(
        after,
        g,
        n,
    ) by {
        let i = choose|i: int|
            0 <= i < n && i < events.len() && #[trigger] events[i] == HeadEvent::Opened(g);
        assert(after[i] == HeadEvent::Opened(g));
    }
    assert forall|j: int| 0 <= j < after.len() && #[trigger] after[j] is Updated implies opened_before(
        after,
        after[j].gid(),
        j,
    ) by {
        assert(events[j] is Updated);
        assert(opened_before(events, events[j].gid(), j));
    }
    assert forall|g: u64| g < next + 1 implies #[trigger] opened_before(after, g, after.len() as int) by {
        if g < next {
            assert(opened_before(events, g, events.len() as int));
        } else {
            assert(after[events.len() as int] == HeadEvent::Opened(g));
        }
    }
    assert forall|i: int, j: int|
        0 <= i < j < after.len() && #[trigger] after[i] is Opened
            && #[trigger] after[j] is Opened implies after[i].gid()
        < after[j].gid() by {
        if j < events.len() {
            assert(events[i] is Opened && events[j] is Opened);
        } else {
            assert(events[i].gid() < next);
        }
    }
}

} // verus!
