//! MapLocal: rules that answer a request from local files instead of
//! sending it upstream.

use crate::text::{contains, contains_seq};
use vstd::prelude::*;

verus! {

/// One rule: requests whose URI contains `url` are answered with the
/// headers of the file `header_local` and the body of the file
/// `body_local`.
#[derive(Debug)]
pub struct MapLocalItem {
    pub id: String,
    pub enabled: bool,
    pub url: String,
    pub header_local: String,
    pub body_local: String,
}

/// The rules of the tool, in the order in which they are tried.
#[derive(Debug)]
pub struct MapLocal {
    pub tool_enabled: bool,
    pub map_locals: Vec<MapLocalItem>,
}

/// A rule as plain values.
pub struct MapLocalItemView {
    pub id: Seq<char>,
    pub enabled: bool,
    pub url: Seq<char>,
    pub header_local: Seq<char>,
    pub body_local: Seq<char>,
}

impl View for MapLocalItem {
    type V = MapLocalItemView;

    open spec fn view(&self) -> MapLocalItemView {
        MapLocalItemView {
            id: self.id@,
            enabled: self.enabled,
            url: self.url@,
            header_local: self.header_local@,
            body_local: self.body_local@,
        }
    }
}

impl DeepView for MapLocalItem {
    type V = MapLocalItemView;

    open spec fn deep_view(&self) -> MapLocalItemView {
        self@
    }
}

impl Clone for MapLocalItem {
    fn clone(&self) -> (r: Self)
        ensures
            r@ == self@,
    {
        MapLocalItem {
            id: self.id.clone(),
            enabled: self.enabled,
            url: self.url.clone(),
            header_local: self.header_local.clone(),
            body_local: self.body_local.clone(),
        }
    }
}

/// A rule that can be used: switched on, and with a URL. A rule without
/// files is one too: it answers with an empty body and no headers.
pub open spec fn usable(item: MapLocalItemView) -> bool {
    item.enabled && item.url.len() > 0
}

/// The first usable rule at or after `from`.
pub open spec fn first_usable(rules: Seq<MapLocalItemView>, from: int) -> Option<int>
    decreases rules.len() - from,
{
    if from < 0 || from >= rules.len() {
        None
    } else if usable(rules[from]) {
        Some(from)
    } else {
        first_usable(rules, from + 1)
    }
}

/// Whether the tool has a rule to use: the first usable rule of the tool
/// while it is switched on; `Err(false)` without one.
pub fn check_need_map_local(map_local: MapLocal) -> (r: Result<MapLocalItem, bool>)
    ensures
        match first_usable(map_local.map_locals.deep_view(), 0) {
            Some(i) if map_local.tool_enabled => r is Ok && r->Ok_0@
                == map_local.map_locals.deep_view()[i],
            _ => r == Err::<MapLocalItem, bool>(false),
        },
{
    if !map_local.tool_enabled {
        return Err(false);
    }
    let ghost rules = map_local.map_locals.deep_view();
    let mut k: usize = 0;
    while k < map_local.map_locals.len()
        invariant
            k <= map_local.map_locals.len(),
            map_local.tool_enabled,
            rules == map_local.map_locals.deep_view(),
            first_usable(rules, 0) == first_usable(rules, k as int),
        decreases map_local.map_locals.len() - k,
    {
        let item = &map_local.map_locals[k];
        assert(rules[k as int] == item@);
        if item.enabled && !item.url.as_str().is_empty() {
            return Ok(item.clone());
        }
        k += 1;
    }
    Err(false)
}

/// A rule that answers the request for `uri`: switched on, with a URL, and
/// the URI contains the URL.
pub open spec fn answers(item: MapLocalItemView, uri: Seq<char>) -> bool {
    item.enabled && item.url.len() > 0 && contains_seq(uri, item.url)
}

/// The first rule at or after `from` that answers the request for `uri`.
pub open spec fn first_answering(rules: Seq<MapLocalItemView>, uri: Seq<char>, from: int) -> Option<
    int,
>
    decreases rules.len() - from,
{
    if from < 0 || from >= rules.len() {
        None
    } else if answers(rules[from], uri) {
        Some(from)
    } else {
        first_answering(rules, uri, from + 1)
    }
}

/// The rule that answers the request for `uri`: the first one that is
/// switched on and whose URL the URI contains, while the tool is switched
/// on.
pub fn match_map_local(map_local: &MapLocal, uri: &str) -> (r: Option<MapLocalItem>)
    ensures
        match first_answering(map_local.map_locals.deep_view(), uri@, 0) {
            Some(i) if map_local.tool_enabled => r is Some && r->0@
                == map_local.map_locals.deep_view()[i],
            _ => r is None,
        },
{
    if !map_local.tool_enabled {
        return None;
    }
    let ghost rules = map_local.map_locals.deep_view();
    let mut k: usize = 0;
    while k < map_local.map_locals.len()
        invariant
            k <= map_local.map_locals.len(),
            map_local.tool_enabled,
            rules == map_local.map_locals.deep_view(),
            first_answering(rules, uri@, 0) == first_answering(rules, uri@, k as int),
        decreases map_local.map_locals.len() - k,
    {
        let item = &map_local.map_locals[k];
        assert(rules[k as int] == item@);
        if item.enabled && !item.url.as_str().is_empty() && contains(uri, item.url.as_str()) {
            return Some(item.clone());
        }
        k += 1;
    }
    None
}

} // verus!
