//! The search over the recorded transactions: where a text occurs in their
//! URLs, headers and bodies, letter case aside.

use crate::state::State;
use crate::store::{
    cache_list, distinct_gids, heads_of_session, pairs_map, session_heads, settled,
};
use crate::text::{
    chars_of, contains_seq, decimal, decimal_string, find_from, lowercase_of, matches_at, occurs_at,
    str_eq, to_lowercase, trim_chars, trimmed,
};
use crate::traffic::{Traffic, TrafficHead, TrafficView};
use std::sync::Arc;
use vstd::prelude::*;
use vstd::string::StringExecFns;

verus! {

/// Where in a transaction a text is looked for.
#[derive(Debug, Clone, Copy)]
pub struct SearchPosition {
    pub request_url: bool,
    pub request_header: bool,
    pub response_header: bool,
    pub request_body: bool,
    pub response_body: bool,
}

/// What is looked for, and where.
#[derive(Debug)]
pub struct SearchQuery {
    pub text: String,
    pub position: SearchPosition,
}

/// One place of a transaction in which the text was found: the name of the
/// place, what stands there, and the byte offsets at which the text begins
/// in the lower-case form of it.
#[derive(Debug)]
pub struct SearchItem {
    pub position: String,
    pub content: String,
    pub keyword_byte_index: Vec<usize>,
}

/// The places of one transaction in which the text was found.
#[derive(Debug)]
pub struct SearchData {
    pub id: u64,
    pub url: String,
    pub search_item: Vec<SearchItem>,
}

/// The answer to a search.
#[derive(Debug)]
pub struct SearchResult {
    pub text: String,
    pub search_data: Vec<SearchData>,
}

/// A transaction as the search sees it: its record, its headers as JSON
/// text and its bodies as text, as far as the caller has them.
#[derive(Debug)]
pub struct SearchRecord {
    pub id: u64,
    pub traffic: Arc<Traffic>,
    pub req_headers_json: Option<String>,
    pub res_headers_json: Option<String>,
    pub req_body: Option<String>,
    pub res_body: Option<String>,
}

/// A found place as plain values.
pub struct SearchItemView {
    pub position: Seq<char>,
    pub content: Seq<char>,
    pub keyword_byte_index: Seq<usize>,
}

/// The found places of a transaction as plain values.
pub struct SearchDataView {
    pub id: u64,
    pub url: Seq<char>,
    pub search_item: Seq<SearchItemView>,
}

impl View for SearchItem {
    type V = SearchItemView;

    open spec fn view(&self) -> SearchItemView {
        SearchItemView {
            position: self.position@,
            content: self.content@,
            keyword_byte_index: self.keyword_byte_index@,
        }
    }
}

impl DeepView for SearchItem {
    type V = SearchItemView;

    open spec fn deep_view(&self) -> SearchItemView {
        self@
    }
}

impl View for SearchData {
    type V = SearchDataView;

    open spec fn view(&self) -> SearchDataView {
        SearchDataView {
            id: self.id,
            url: self.url@,
            search_item: self.search_item.deep_view(),
        }
    }
}

impl DeepView for SearchData {
    type V = SearchDataView;

    open spec fn deep_view(&self) -> SearchDataView {
        self@
    }
}

/// The number of bytes of a character in UTF-8.
pub open spec fn utf8_len(c: char) -> nat {
    let n = c as u32;
    if n < 0x80 {
        1
    } else if n < 0x800 {
        2
    } else if n < 0x10000 {
        3
    } else {
        4
    }
}

/// The number of bytes of the first `n` characters of a text in UTF-8.
pub open spec fn byte_offset(s: Seq<char>, n: int) -> nat
    decreases n,
{
    if n <= 0 || n > s.len() {
        0
    } else {
        byte_offset(s, n - 1) + utf8_len(s[n - 1])
    }
}

/// The byte offsets at which `needle` begins in `hay`, from the character
/// `from` on, going from left to right without overlap: an occurrence
/// counts if it begins at or after `free`, where the occurrence before it
/// ends. An empty needle occurs nowhere.
pub open spec fn offsets_from(hay: Seq<char>, needle: Seq<char>, from: int, free: int) -> Seq<usize>
    decreases hay.len() - from,
{
    if needle.len() == 0 || from < 0 || from + needle.len() > hay.len() {
        Seq::empty()
    } else if from >= free && occurs_at(hay, needle, from) {
        seq![byte_offset(hay, from) as usize] + offsets_from(
            hay,
            needle,
            from + 1,
            from + needle.len(),
        )
    } else {
        offsets_from(hay, needle, from + 1, free)
    }
}

/// The byte offsets at which `text` begins in `field`, both in lower case.
pub open spec fn found_in(field: Seq<char>, text: Seq<char>) -> Seq<usize> {
    offsets_from(lowercase_of(field), lowercase_of(text), 0, 0)
}

fn char_len(c: char) -> (r: usize)
    ensures
        r == utf8_len(c),
{
    let n: u32 = c as u32;
    if n < 0x80 {
        1
    } else if n < 0x800 {
        2
    } else if n < 0x10000 {
        3
    } else {
        4
    }
}

/// The byte offsets at which `text` begins in `field`, letter case aside.
/// The offsets are those in the lower-case form of the field.
pub fn text_matches_all(field: &str, text: &str) -> (r: Vec<usize>)
    ensures
        r@ == found_in(field@, text@),
{
    let lower_field = to_lowercase(field);
    let lower_text = to_lowercase(text);
    let hay = chars_of(lower_field.as_str());
    let needle = chars_of(lower_text.as_str());
    let mut out: Vec<usize> = Vec::new();
    if needle.len() == 0 || needle.len() > hay.len() {
        return out;
    }
    let last: usize = hay.len() - needle.len();
    let mut from: usize = 0;
    let mut free: usize = 0;
    let mut bytes: u128 = 0;
    while from <= last
        invariant
            needle@.len() > 0,
            last == hay@.len() - needle@.len(),
            last + needle.len() == hay.len(),
            from <= last + 1,
            bytes == byte_offset(hay@, from as int),
            bytes <= 4 * from,
            offsets_from(hay@, needle@, 0, 0) == out@ + offsets_from(
                hay@,
                needle@,
                from as int,
                free as int,
            ),
        decreases last + 1 - from,
    {
        let ghost rest = offsets_from(hay@, needle@, from as int, free as int);
        if from >= free && matches_at(hay.as_slice(), needle.as_slice(), from) {
            let ghost before = out@;
            out.push(bytes as usize);
            free = from + needle.len();
            assert(before + rest =~= out@ + offsets_from(
                hay@,
                needle@,
                from + 1,
                from + needle@.len(),
            ));
        }
        bytes = bytes + char_len(hay[from]) as u128;
        from = from + 1;
    }
    assert(offsets_from(hay@, needle@, from as int, free as int) =~= Seq::<usize>::empty());
    assert(out@ + Seq::<usize>::empty() =~= out@);
    out
}

/// The found place of one part of a transaction: none where the part is
/// not looked at, is not there, or does not hold the text.
pub open spec fn item_for(
    place: Seq<char>,
    content: Option<Seq<char>>,
    wanted: bool,
    text: Seq<char>,
) -> Seq<SearchItemView> {
    match content {
        Some(c) if wanted && found_in(c, text).len() > 0 => seq![
            SearchItemView { position: place, content: c, keyword_byte_index: found_in(c, text) },
        ],
        _ => Seq::empty(),
    }
}

/// The found places of a transaction, in the order URL, request headers,
/// response headers, request body, response body.
pub open spec fn items_of(q: SearchQuery, r: SearchRecord) -> Seq<SearchItemView> {
    item_for("Request URL"@, Some(r.traffic@.uri), q.position.request_url, q.text@) + item_for(
        "Request Header"@,
        r.req_headers_json.deep_view(),
        q.position.request_header,
        q.text@,
    ) + item_for(
        "Response Header"@,
        r.res_headers_json.deep_view(),
        q.position.response_header,
        q.text@,
    ) + item_for("Request Body"@, r.req_body.deep_view(), q.position.request_body, q.text@)
        + item_for("Response Body"@, r.res_body.deep_view(), q.position.response_body, q.text@)
}

/// What the search finds in one transaction of the session.
pub open spec fn hit_of(q: SearchQuery, r: SearchRecord, session: Seq<char>) -> Option<
    SearchDataView,
> {
    if r.traffic@.session_id == session && items_of(q, r).len() > 0 {
        Some(SearchDataView { id: r.id, url: r.traffic@.uri, search_item: items_of(q, r) })
    } else {
        None
    }
}

/// What the search finds in the first `n` transactions.
pub open spec fn hits_of(q: SearchQuery, records: Seq<SearchRecord>, session: Seq<char>, n: int) -> Seq<
    SearchDataView,
>
    decreases n,
{
    if n <= 0 || n > records.len() {
        Seq::empty()
    } else {
        let rest = hits_of(q, records, session, n - 1);
        match hit_of(q, records[n - 1], session) {
            Some(h) => rest.push(h),
            None => rest,
        }
    }
}

/// What a search finds: nothing for a blank session or an empty text, else
/// what it finds in the transactions of the session, in their order.
pub open spec fn search_result(q: SearchQuery, session: Seq<char>, records: Seq<SearchRecord>) -> Seq<
    SearchDataView,
> {
    if trimmed(session).len() == 0 || q.text@.len() == 0 {
        Seq::empty()
    } else {
        hits_of(q, records, session, records.len() as int)
    }
}

fn add_item(
    items: &mut Vec<SearchItem>,
    place: &str,
    content: &Option<String>,
    wanted: bool,
    text: &str,
)
    ensures
        final(items).deep_view() == old(items).deep_view() + item_for(
            place@,
            content.deep_view(),
            wanted,
            text@,
        ),
{
    let ghost before = items.deep_view();
    if let Some(c) = content {
        if wanted {
            let found = text_matches_all(c.as_str(), text);
            if found.len() > 0 {
                let ghost indices = found@;
                items.push(
                    SearchItem {
                        position: String::from_str(place),
                        content: c.clone(),
                        keyword_byte_index: found,
                    },
                );
                assert(items.deep_view() =~= before + seq![
                    SearchItemView { position: place@, content: c@, keyword_byte_index: indices },
                ]);
                return ;
            }
        }
    }
    assert(before + Seq::<SearchItemView>::empty() =~= before);
}

/// What the search finds in one transaction.
pub fn search_record(data: &SearchQuery, record: &SearchRecord, session_id: &str) -> (r: Option<
    SearchData,
>)
    ensures
        r.deep_view() == hit_of(*data, *record, session_id@),
{
    if !str_eq(record.traffic.session_id.as_str(), session_id) {
        return None;
    }
    let mut items: Vec<SearchItem> = Vec::new();
    assert(items.deep_view() =~= Seq::<SearchItemView>::empty());
    let text = data.text.as_str();
    let uri = Some(record.traffic.uri.clone());
    add_item(&mut items, "Request URL", &uri, data.position.request_url, text);
    add_item(&mut items, "Request Header", &record.req_headers_json, data.position.request_header, text);
    add_item(&mut items, "Response Header", &record.res_headers_json, data.position.response_header, text);
    add_item(&mut items, "Request Body", &record.req_body, data.position.request_body, text);
    add_item(&mut items, "Response Body", &record.res_body, data.position.response_body, text);
    assert(items.deep_view() =~= items_of(*data, *record));
    if items.len() > 0 {
        Some(SearchData { id: record.id, url: record.traffic.uri.clone(), search_item: items })
    } else {
        None
    }
}

fn is_blank(text: &str) -> (r: bool)
    ensures
        r == (trimmed(text@).len() == 0),
{
    let t = chars_of(text);
    let kept = trim_chars(t.as_slice());
    kept.len() == 0
}

/// Looks for the text of a query in the transactions of a session.
pub fn search_traffic(data: &SearchQuery, session_id: &str, records: &Vec<SearchRecord>) -> (r: Vec<
    SearchData,
>)
    ensures
        r.deep_view() == search_result(*data, session_id@, records@),
{
    let mut results: Vec<SearchData> = Vec::new();
    assert(results.deep_view() =~= Seq::<SearchDataView>::empty());
    if is_blank(session_id) || data.text.as_str().is_empty() {
        return results;
    }
    let mut i: usize = 0;
    while i < records.len()
        invariant
            i <= records.len(),
            results.deep_view() == hits_of(*data, records@, session_id@, i as int),
        decreases records.len() - i,
    {
        let ghost before = results.deep_view();
        match search_record(data, &records[i], session_id) {
            Some(hit) => {
                let ghost h = hit@;
                results.push(hit);
                assert(results.deep_view() =~= before.push(h));
            },
            None => {},
        }
        i += 1;
    }
    results
}

/// Whether a transaction of the session has the key word in its URI,
/// letter case aside.
pub open spec fn ez_hit(t: TrafficView, key_word: Seq<char>, session: Seq<char>) -> bool {
    t.session_id == session && contains_seq(lowercase_of(t.uri), lowercase_of(key_word))
}

/// The gids, in decimal, of the first `n` listed transactions of the session
/// that have the key word in their URI.
pub open spec fn ez_hits(
    list: Seq<(u64, TrafficView)>,
    key_word: Seq<char>,
    session: Seq<char>,
    n: int,
) -> Seq<Seq<char>>
    decreases n,
{
    if n <= 0 || n > list.len() {
        Seq::empty()
    } else {
        let rest = ez_hits(list, key_word, session, n - 1);
        if ez_hit(list[n - 1].1, key_word, session) {
            rest.push(decimal(list[n - 1].0 as nat))
        } else {
            rest
        }
    }
}

/// The gids of the listed transactions of a session that have the key word
/// in their URI; none for a blank session.
pub fn ez_search(items: &Vec<(u64, Arc<Traffic>)>, key_word: &str, session_id: &str) -> (r: Vec<
    String,
>)
    ensures
        trimmed(session_id@).len() == 0 ==> r.len() == 0,
        trimmed(session_id@).len() > 0 ==> r.deep_view() == ez_hits(
            items.deep_view(),
            key_word@,
            session_id@,
            items.len() as int,
        ),
{
    let mut results: Vec<String> = Vec::new();
    if is_blank(session_id) {
        return results;
    }
    assert(results.deep_view() =~= Seq::<Seq<char>>::empty());
    let lower = to_lowercase(key_word);
    let wanted = chars_of(lower.as_str());
    let mut i: usize = 0;
    while i < items.len()
        invariant
            i <= items.len(),
            wanted@ == lowercase_of(key_word@),
            results.deep_view() == ez_hits(items.deep_view(), key_word@, session_id@, i as int),
        decreases items.len() - i,
    {
        let traffic = &items[i].1;
        assert(items.deep_view()[i as int] == (items[i as int].0, items[i as int].1@));
        if str_eq(traffic.session_id.as_str(), session_id) {
            let uri = to_lowercase(traffic.uri.as_str());
            let u = chars_of(uri.as_str());
            if find_from(u.as_slice(), wanted.as_slice(), 0).is_some() {
                let ghost before = results.deep_view();
                let id = decimal_string(items[i].0);
                results.push(id);
                assert(results.deep_view() =~= before.push(decimal(items[i as int].0 as nat)));
            }
        }
        i += 1;
    }
    results
}

impl State {
    /// The heads of the stored transactions of a session, in the order of
    /// the store's own listing.
    pub fn list_session_heads(&mut self, session_id: &str) -> (r: Vec<TrafficHead>)
        ensures
            exists|list: Seq<(u64, TrafficView)>|
                distinct_gids(list) && pairs_map(list).submap_of(old(self).entries()) && (settled(
                    old(self).traffics,
                ) ==> pairs_map(list) == old(self).entries()) && #[trigger] session_heads(
                    list,
                    session_id@,
                    list.len() as int,
                ) == r.deep_view(),
            final(self).traffics == old(self).traffics,
            final(self).paused_traffic == old(self).paused_traffic,
            final(self).monitor_traffic == old(self).monitor_traffic,
            final(self).next_id == old(self).next_id,
            final(self).events == old(self).events,
    {
        let items = cache_list(&self.traffics);
        heads_of_session(&items, session_id)
    }

    /// The gids of the stored transactions of a session that have the key
    /// word in their URI, in the order of the store's own listing.
    pub fn ez_search_traffic(&mut self, key_word: &str, session_id: &str) -> (r: Vec<String>)
        ensures
            trimmed(session_id@).len() == 0 ==> r.len() == 0,
            trimmed(session_id@).len() > 0 ==> exists|list: Seq<(u64, TrafficView)>|
                distinct_gids(list) && pairs_map(list).submap_of(old(self).entries()) && (settled(
                    old(self).traffics,
                ) ==> pairs_map(list) == old(self).entries()) && #[trigger] ez_hits(
                    list,
                    key_word@,
                    session_id@,
                    list.len() as int,
                ) == r.deep_view(),
            final(self).traffics == old(self).traffics,
            final(self).paused_traffic == old(self).paused_traffic,
            final(self).monitor_traffic == old(self).monitor_traffic,
            final(self).next_id == old(self).next_id,
            final(self).events == old(self).events,
    {
        let items = cache_list(&self.traffics);
        ez_search(&items, key_word, session_id)
    }
}

} // verus!
