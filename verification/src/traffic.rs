//! The transaction record: one HTTP exchange, its life cycle and the head
//! snapshot that is published for it.

use crate::text::{chars_of, clone_opt, ends_with, has_suffix, slice_chars, str_eq, string_of};
use vstd::prelude::*;
use vstd::string::StringExecFns;

verus! {

/// One header line.
#[derive(Debug)]
pub struct Header {
    pub name: String,
    pub value: String,
}

/// A header line as a pair of character sequences.
pub struct HeaderView {
    pub name: Seq<char>,
    pub value: Seq<char>,
}

impl View for Header {
    type V = HeaderView;

    open spec fn view(&self) -> HeaderView {
        HeaderView { name: self.name@, value: self.value@ }
    }
}

impl DeepView for Header {
    type V = HeaderView;

    open spec fn deep_view(&self) -> HeaderView {
        self@
    }
}

impl Clone for Header {
    fn clone(&self) -> (r: Self)
        ensures
            r == *self,
    {
        Header { name: self.name.clone(), value: self.value.clone() }
    }
}

/// An ordered list of header lines; the order of arrival is kept.
#[derive(Debug)]
pub struct Headers {
    pub items: Vec<Header>,
}

impl View for Headers {
    type V = Seq<HeaderView>;

    open spec fn view(&self) -> Seq<HeaderView> {
        self.items.deep_view()
    }
}

impl DeepView for Headers {
    type V = Seq<HeaderView>;

    open spec fn deep_view(&self) -> Seq<HeaderView> {
        self@
    }
}

impl Clone for Headers {
    fn clone(&self) -> (r: Self)
        ensures
            r@ == self@,
    {
        let mut items: Vec<Header> = Vec::new();
        let mut i: usize = 0;
        while i < self.items.len()
            invariant
                i <= self.items.len(),
                items.len() == i,
                forall|j: int| 0 <= j < i ==> items[j]@ == self.items[j]@,
            decreases self.items.len() - i,
        {
            items.push(self.items[i].clone());
            i += 1;
        }
        let r = Headers { items };
        assert(r@ =~= self@);
        r
    }
}

/// A copy of an optional header list.
pub fn clone_opt_headers(o: &Option<Headers>) -> (r: Option<Headers>)
    ensures
        r.deep_view() == o.deep_view(),
{
    match o {
        Some(h) => Some(h.clone()),
        None => None,
    }
}

/// A body as it is shown: its text where it is UTF-8 (`encode` is `"utf8"`),
/// else its base64 form (`encode` is `"base64"`), with its size in bytes.
#[derive(Debug)]
pub struct Body {
    pub encode: String,
    pub value: String,
    pub size: u64,
}

/// Where a transaction stands in its life cycle.
#[derive(Clone, Copy, Debug, PartialEq, Eq, Structural)]
pub enum TransactionState {
    Requesting,
    Responding,
    ResponseDone,
    Completed,
    Failed,
}

impl TransactionState {
    /// `Completed` and `Failed` end the life cycle.
    pub open spec fn terminal(self) -> bool {
        self == TransactionState::Completed || self == TransactionState::Failed
    }

    /// The steps of the life cycle: forward one stage at a time, or to
    /// `Failed` from any stage that is not terminal.
    pub open spec fn may_become(self, next: TransactionState) -> bool {
        match (self, next) {
            (TransactionState::Requesting, TransactionState::Responding) => true,
            (TransactionState::Responding, TransactionState::ResponseDone) => true,
            (TransactionState::ResponseDone, TransactionState::Completed) => true,
            (TransactionState::Requesting, TransactionState::Failed) => true,
            (TransactionState::Responding, TransactionState::Failed) => true,
            (TransactionState::ResponseDone, TransactionState::Failed) => true,
            _ => false,
        }
    }

    pub fn is_terminal(self) -> (r: bool)
        ensures
            r == self.terminal(),
    {
        match self {
            TransactionState::Completed | TransactionState::Failed => true,
            _ => false,
        }
    }

    pub fn can_become(self, next: TransactionState) -> (r: bool)
        ensures
            r == self.may_become(next),
    {
        match (self, next) {
            (TransactionState::Requesting, TransactionState::Responding) => true,
            (TransactionState::Responding, TransactionState::ResponseDone) => true,
            (TransactionState::ResponseDone, TransactionState::Completed) => true,
            (TransactionState::Requesting, TransactionState::Failed) => true,
            (TransactionState::Responding, TransactionState::Failed) => true,
            (TransactionState::ResponseDone, TransactionState::Failed) => true,
            _ => false,
        }
    }
}

/// The suffix that marks a spooled body as still encoded, by encoding; empty
/// where the encoding leaves the body as it is.
pub open spec fn encoding_ext(encoding: Seq<char>) -> Seq<char> {
    if encoding == "deflate"@ {
        ".enc.deflate"@
    } else if encoding == "gzip"@ {
        ".enc.gz"@
    } else if encoding == "br"@ {
        ".enc.br"@
    } else if encoding == "zstd"@ {
        ".enc.zst"@
    } else {
        Seq::empty()
    }
}

/// A path that ends in the suffix of a still encoded body.
pub open spec fn is_encoded_path(path: Seq<char>) -> bool {
    has_suffix(path, ".enc.deflate"@) || has_suffix(path, ".enc.gz"@) || has_suffix(
        path,
        ".enc.br"@,
    ) || has_suffix(path, ".enc.zst"@)
}

/// The path with every trailing encoding suffix taken off.
pub open spec fn decoded_path(path: Seq<char>) -> Seq<char>
    decreases path.len(),
{
    if has_suffix(path, ".enc.deflate"@) && ".enc.deflate"@.len() > 0 {
        decoded_path(path.subrange(0, path.len() - ".enc.deflate"@.len()))
    } else if has_suffix(path, ".enc.gz"@) && ".enc.gz"@.len() > 0 {
        decoded_path(path.subrange(0, path.len() - ".enc.gz"@.len()))
    } else if has_suffix(path, ".enc.br"@) && ".enc.br"@.len() > 0 {
        decoded_path(path.subrange(0, path.len() - ".enc.br"@.len()))
    } else if has_suffix(path, ".enc.zst"@) && ".enc.zst"@.len() > 0 {
        decoded_path(path.subrange(0, path.len() - ".enc.zst"@.len()))
    } else {
        path
    }
}

/// One recorded HTTP exchange. Times are milliseconds since the Unix epoch.
#[derive(Debug)]
pub struct Traffic {
    pub gid: u64,
    pub session_id: String,
    pub uri: String,
    pub method: String,
    pub transaction_state: TransactionState,
    pub req_headers: Option<Headers>,
    pub req_body_file: Option<String>,
    pub req_body_hex: Option<String>,
    pub status: Option<u16>,
    pub http_version: Option<String>,
    pub res_headers: Option<Headers>,
    pub res_body_file: Option<String>,
    pub res_body_hex: Option<String>,
    pub res_body_size: Option<u64>,
    pub start_time: Option<i64>,
    pub end_time: Option<i64>,
    pub error: Option<String>,
    pub valid: bool,
}

/// A transaction as plain mathematical values.
pub struct TrafficView {
    pub gid: u64,
    pub session_id: Seq<char>,
    pub uri: Seq<char>,
    pub method: Seq<char>,
    pub transaction_state: TransactionState,
    pub req_headers: Option<Seq<HeaderView>>,
    pub req_body_file: Option<Seq<char>>,
    pub req_body_hex: Option<Seq<char>>,
    pub status: Option<u16>,
    pub http_version: Option<Seq<char>>,
    pub res_headers: Option<Seq<HeaderView>>,
    pub res_body_file: Option<Seq<char>>,
    pub res_body_hex: Option<Seq<char>>,
    pub res_body_size: Option<u64>,
    pub start_time: Option<i64>,
    pub end_time: Option<i64>,
    pub error: Option<Seq<char>>,
    pub valid: bool,
}

impl View for Traffic {
    type V = TrafficView;

    open spec fn view(&self) -> TrafficView {
        TrafficView {
            gid: self.gid,
            session_id: self.session_id@,
            uri: self.uri@,
            method: self.method@,
            transaction_state: self.transaction_state,
            req_headers: self.req_headers.deep_view(),
            req_body_file: self.req_body_file.deep_view(),
            req_body_hex: self.req_body_hex.deep_view(),
            status: self.status,
            http_version: self.http_version.deep_view(),
            res_headers: self.res_headers.deep_view(),
            res_body_file: self.res_body_file.deep_view(),
            res_body_hex: self.res_body_hex.deep_view(),
            res_body_size: self.res_body_size,
            start_time: self.start_time,
            end_time: self.end_time,
            error: self.error.deep_view(),
            valid: self.valid,
        }
    }
}

impl DeepView for Traffic {
    type V = TrafficView;

    open spec fn deep_view(&self) -> TrafficView {
        self@
    }
}

impl TrafficView {
    /// The invariants of a record: the end is not before the start, a status
    /// is there exactly from `Responding` on (a failed record may have one or
    /// not), and a completed record points at a decoded body file.
    pub open spec fn wf(self) -> bool {
        &&& (self.start_time is Some && self.end_time is Some) ==> self.end_time->0
            >= self.start_time->0
        &&& self.transaction_state == TransactionState::Requesting ==> self.status is None
        &&& (self.transaction_state == TransactionState::Responding || self.transaction_state
            == TransactionState::ResponseDone || self.transaction_state
            == TransactionState::Completed) ==> self.status is Some
        &&& (self.transaction_state == TransactionState::Completed && self.res_body_file is Some)
            ==> !is_encoded_path(self.res_body_file->0)
    }
}

/// The head snapshot that is published for a transaction.
#[derive(Debug)]
pub struct TrafficHead {
    pub id: u64,
    pub session_id: String,
    pub uri: String,
    pub method: String,
    pub status: Option<u16>,
    pub transaction_state: TransactionState,
    pub http_version: Option<String>,
    pub start_time: Option<i64>,
    pub end_time: Option<i64>,
}

/// A head snapshot as plain mathematical values.
pub struct TrafficHeadView {
    pub id: u64,
    pub session_id: Seq<char>,
    pub uri: Seq<char>,
    pub method: Seq<char>,
    pub status: Option<u16>,
    pub transaction_state: TransactionState,
    pub http_version: Option<Seq<char>>,
    pub start_time: Option<i64>,
    pub end_time: Option<i64>,
}

impl View for TrafficHead {
    type V = TrafficHeadView;

    open spec fn view(&self) -> TrafficHeadView {
        TrafficHeadView {
            id: self.id,
            session_id: self.session_id@,
            uri: self.uri@,
            method: self.method@,
            status: self.status,
            transaction_state: self.transaction_state,
            http_version: self.http_version.deep_view(),
            start_time: self.start_time,
            end_time: self.end_time,
        }
    }
}

impl DeepView for TrafficHead {
    type V = TrafficHeadView;

    open spec fn deep_view(&self) -> TrafficHeadView {
        self@
    }
}

impl Clone for TrafficHead {
    fn clone(&self) -> (r: Self)
        ensures
            r@ == self@,
    {
        TrafficHead {
            id: self.id,
            session_id: self.session_id.clone(),
            uri: self.uri.clone(),
            method: self.method.clone(),
            status: self.status,
            transaction_state: self.transaction_state,
            http_version: clone_opt(&self.http_version),
            start_time: self.start_time,
            end_time: self.end_time,
        }
    }
}

/// The head of a record under the given id and session.
pub open spec fn head_of(t: TrafficView, id: u64, session_id: Seq<char>) -> TrafficHeadView {
    TrafficHeadView {
        id,
        session_id,
        uri: t.uri,
        method: t.method,
        status: t.status,
        transaction_state: t.transaction_state,
        http_version: t.http_version,
        start_time: t.start_time,
        end_time: t.end_time,
    }
}

impl Clone for Traffic {
    fn clone(&self) -> (r: Self)
        ensures
            r@ == self@,
    {
        Traffic {
            gid: self.gid,
            session_id: self.session_id.clone(),
            uri: self.uri.clone(),
            method: self.method.clone(),
            transaction_state: self.transaction_state,
            req_headers: clone_opt_headers(&self.req_headers),
            req_body_file: clone_opt(&self.req_body_file),
            req_body_hex: clone_opt(&self.req_body_hex),
            status: self.status,
            http_version: clone_opt(&self.http_version),
            res_headers: clone_opt_headers(&self.res_headers),
            res_body_file: clone_opt(&self.res_body_file),
            res_body_hex: clone_opt(&self.res_body_hex),
            res_body_size: self.res_body_size,
            start_time: self.start_time,
            end_time: self.end_time,
            error: clone_opt(&self.error),
            valid: self.valid,
        }
    }
}

/// The suffix that marks a body spooled under this encoding.
pub fn encoding_ext_of(encoding: &str) -> (r: &'static str)
    ensures
        r@ == encoding_ext(encoding@),
{
    if str_eq(encoding, "deflate") {
        ".enc.deflate"
    } else if str_eq(encoding, "gzip") {
        ".enc.gz"
    } else if str_eq(encoding, "br") {
        ".enc.br"
    } else if str_eq(encoding, "zstd") {
        ".enc.zst"
    } else {
        proof {
            reveal_strlit("");
        }
        ""
    }
}

/// The encoding under which the body at a spool path is still encoded, as
/// the suffix of the path tells; nothing for the path of a decoded body.
pub open spec fn path_encoding(path: Seq<char>) -> Option<Seq<char>> {
    if has_suffix(path, ".enc.deflate"@) {
        Some("deflate"@)
    } else if has_suffix(path, ".enc.gz"@) {
        Some("gzip"@)
    } else if has_suffix(path, ".enc.br"@) {
        Some("br"@)
    } else if has_suffix(path, ".enc.zst"@) {
        Some("zstd"@)
    } else {
        None
    }
}

/// The encoding under which the body at a spool path is still encoded.
pub fn spool_encoding(path: &str) -> (r: Option<&'static str>)
    ensures
        r.deep_view() == path_encoding(path@),
        r is Some <==> is_encoded_path(path@),
{
    let p = chars_of(path);
    let deflate = chars_of(".enc.deflate");
    let gz = chars_of(".enc.gz");
    let br = chars_of(".enc.br");
    let zst = chars_of(".enc.zst");
    if ends_with(p.as_slice(), deflate.as_slice()) {
        Some("deflate")
    } else if ends_with(p.as_slice(), gz.as_slice()) {
        Some("gzip")
    } else if ends_with(p.as_slice(), br.as_slice()) {
        Some("br")
    } else if ends_with(p.as_slice(), zst.as_slice()) {
        Some("zstd")
    } else {
        None
    }
}

/// The size that a record is closed with: the size of the decoded body
/// where the spooled body was decoded, else the number of bytes that were
/// handed on.
pub open spec fn closing_size_of(raw_size: u64, decoded_size: Option<u64>) -> u64 {
    match decoded_size {
        Some(n) => n,
        None => raw_size,
    }
}

/// The size that a record is closed with.
pub fn closing_size(raw_size: u64, decoded_size: Option<u64>) -> (r: u64)
    ensures
        r == closing_size_of(raw_size, decoded_size),
{
    match decoded_size {
        Some(n) => n,
        None => raw_size,
    }
}

/// Drops the encoding suffixes from the end of a spool path.
pub fn strip_encoding_exts(path: &str) -> (r: String)
    ensures
        r@ == decoded_path(path@),
        !is_encoded_path(r@),
{
    proof {
        reveal_strlit(".enc.deflate");
        reveal_strlit(".enc.gz");
        reveal_strlit(".enc.br");
        reveal_strlit(".enc.zst");
    }
    let p = chars_of(path);
    let deflate = chars_of(".enc.deflate");
    let gz = chars_of(".enc.gz");
    let br = chars_of(".enc.br");
    let zst = chars_of(".enc.zst");
    let mut end: usize = p.len();
    assert(p@.subrange(0, end as int) =~= path@);
    loop
        invariant
            end <= p.len(),
            deflate@ == ".enc.deflate"@,
            gz@ == ".enc.gz"@,
            br@ == ".enc.br"@,
            zst@ == ".enc.zst"@,
            deflate@.len() == 12,
            gz@.len() == 7,
            br@.len() == 7,
            zst@.len() == 8,
            decoded_path(path@) == decoded_path(p@.subrange(0, end as int)),
        decreases end,
    {
        let cur = slice_chars(p.as_slice(), 0, end);
        let ghost c = cur@;
        if ends_with(cur.as_slice(), deflate.as_slice()) {
            assert(c.subrange(0, c.len() - 12) =~= p@.subrange(0, end - 12));
            end = end - deflate.len();
        } else if ends_with(cur.as_slice(), gz.as_slice()) {
            assert(c.subrange(0, c.len() - 7) =~= p@.subrange(0, end - 7));
            end = end - gz.len();
        } else if ends_with(cur.as_slice(), br.as_slice()) {
            assert(c.subrange(0, c.len() - 7) =~= p@.subrange(0, end - 7));
            end = end - br.len();
        } else if ends_with(cur.as_slice(), zst.as_slice()) {
            assert(c.subrange(0, c.len() - 8) =~= p@.subrange(0, end - 8));
            end = end - zst.len();
        } else {
            return string_of(cur.as_slice());
        }
    }
}

impl TrafficView {
    /// A record as it is opened: in `Requesting`, nothing known of the
    /// response, kept for persisting.
    pub open spec fn opened(uri: Seq<char>, method: Seq<char>, now: i64) -> TrafficView {
        TrafficView {
            gid: 0,
            session_id: Seq::empty(),
            uri,
            method,
            transaction_state: TransactionState::Requesting,
            req_headers: None,
            req_body_file: None,
            req_body_hex: None,
            status: None,
            http_version: None,
            res_headers: None,
            res_body_file: None,
            res_body_hex: None,
            res_body_size: None,
            start_time: Some(now),
            end_time: None,
            error: None,
            valid: true,
        }
    }

    pub open spec fn terminal(self) -> bool {
        self.transaction_state.terminal()
    }

    /// `now`, or the start time where the clock has gone back behind it.
    pub open spec fn end_at(self, now: i64) -> i64 {
        if self.start_time is Some && now < self.start_time->0 {
            self.start_time->0
        } else {
            now
        }
    }

    /// The error text with `msg` added at its end.
    pub open spec fn error_with(self, msg: Seq<char>) -> Option<Seq<char>> {
        match self.error {
            Some(e) => Some(e + msg),
            None => Some(msg),
        }
    }

    /// The response head has arrived: `Requesting` becomes `Responding`.
    pub open spec fn responded(
        self,
        status: u16,
        http_version: Seq<char>,
        headers: Seq<HeaderView>,
        now: i64,
    ) -> TrafficView {
        if self.transaction_state == TransactionState::Requesting {
            TrafficView {
                status: Some(status),
                http_version: Some(http_version),
                res_headers: Some(headers),
                end_time: Some(self.end_at(now)),
                transaction_state: TransactionState::Responding,
                ..self
            }
        } else {
            self
        }
    }

    /// The last body byte has been handed on: `Responding` becomes
    /// `ResponseDone`.
    pub open spec fn streamed(self, now: i64) -> TrafficView {
        if self.transaction_state == TransactionState::Responding {
            TrafficView {
                end_time: Some(self.end_at(now)),
                transaction_state: TransactionState::ResponseDone,
                ..self
            }
        } else {
            self
        }
    }

    /// The state that ends a record with this status.
    pub open spec fn outcome(self) -> TransactionState {
        if self.status is Some && self.status->0 < 400 {
            TransactionState::Completed
        } else {
            TransactionState::Failed
        }
    }

    /// The record is closed with the size of its decoded body.
    pub open spec fn finalized(self, size: u64) -> TrafficView {
        if self.terminal() {
            self
        } else {
            TrafficView {
                res_body_size: Some(size),
                res_body_file: match self.res_body_file {
                    Some(p) => Some(decoded_path(p)),
                    None => None,
                },
                transaction_state: self.outcome(),
                ..self
            }
        }
    }

    /// `msg` is added to the error text of a record that is still open.
    pub open spec fn with_error(self, msg: Seq<char>) -> TrafficView {
        if self.terminal() {
            self
        } else {
            TrafficView { error: self.error_with(msg), ..self }
        }
    }

    /// The record fails with `msg` added to its error text.
    pub open spec fn failed(self, msg: Seq<char>) -> TrafficView {
        if self.terminal() {
            self
        } else {
            TrafficView {
                error: self.error_with(msg),
                transaction_state: TransactionState::Failed,
                ..self
            }
        }
    }
}

impl Traffic {
    /// Opens the record of a request seen at `now`.
    pub fn new(uri: &str, method: &str, now: i64) -> (t: Traffic)
        ensures
            t@ == TrafficView::opened(uri@, method@, now),
            t@.wf(),
    {
        Traffic {
            gid: 0,
            session_id: String::new(),
            uri: String::from_str(uri),
            method: String::from_str(method),
            transaction_state: TransactionState::Requesting,
            req_headers: None,
            req_body_file: None,
            req_body_hex: None,
            status: None,
            http_version: None,
            res_headers: None,
            res_body_file: None,
            res_body_hex: None,
            res_body_size: None,
            start_time: Some(now),
            end_time: None,
            error: None,
            valid: true,
        }
    }

    fn end_time_at(&self, now: i64) -> (r: i64)
        ensures
            r == self@.end_at(now),
    {
        match self.start_time {
            Some(s) => if now < s {
                s
            } else {
                now
            },
            None => now,
        }
    }

    /// Records the response head. Only a record in `Requesting` takes it.
    pub fn set_response_head(
        &mut self,
        status: u16,
        http_version: &str,
        headers: Headers,
        now: i64,
    )
        ensures
            final(self)@ == old(self)@.responded(status, http_version@, headers@, now),
            old(self)@.wf() ==> final(self)@.wf(),
    {
        if self.transaction_state == TransactionState::Requesting {
            let end = self.end_time_at(now);
            self.status = Some(status);
            self.http_version = Some(String::from_str(http_version));
            self.res_headers = Some(headers);
            self.end_time = Some(end);
            self.transaction_state = TransactionState::Responding;
        }
    }

    /// Marks the body as handed on. Only a record in `Responding` takes it.
    pub fn set_response_done(&mut self, now: i64)
        ensures
            final(self)@ == old(self)@.streamed(now),
            old(self)@.wf() ==> final(self)@.wf(),
    {
        if self.transaction_state == TransactionState::Responding {
            let end = self.end_time_at(now);
            self.end_time = Some(end);
            self.transaction_state = TransactionState::ResponseDone;
        }
    }

    /// Closes the record: the decoded size is kept, the body path loses its
    /// encoding suffix, and the status decides between `Completed` (below
    /// 400) and `Failed` (400 and above, or none). A closed record stays as
    /// it is.
    pub fn done_res_body(&mut self, size: u64)
        ensures
            final(self)@ == old(self)@.finalized(size),
            old(self)@.wf() ==> final(self)@.wf(),
    {
        if self.transaction_state.is_terminal() {
            return ;
        }
        let file = match &self.res_body_file {
            Some(p) => Some(strip_encoding_exts(p.as_str())),
            None => None,
        };
        let outcome = match self.status {
            Some(code) => if code < 400 {
                TransactionState::Completed
            } else {
                TransactionState::Failed
            },
            None => TransactionState::Failed,
        };
        self.res_body_size = Some(size);
        self.res_body_file = file;
        self.transaction_state = outcome;
    }

    fn error_text(&self, msg: &str) -> (r: String)
        ensures
            Some(r@) == self@.error_with(msg@),
    {
        match &self.error {
            Some(e) => {
                let mut t = e.clone();
                t.append(msg);
                t
            },
            None => String::from_str(msg),
        }
    }

    /// Adds `msg` to the error text. A closed record stays as it is.
    pub fn add_error(&mut self, msg: &str)
        ensures
            final(self)@ == old(self)@.with_error(msg@),
            old(self)@.wf() ==> final(self)@.wf(),
    {
        if self.transaction_state.is_terminal() {
            return ;
        }
        let text = self.error_text(msg);
        self.error = Some(text);
    }

    /// Adds `msg` to the error text and fails the record. A closed record
    /// stays as it is.
    pub fn fail(&mut self, msg: &str)
        ensures
            final(self)@ == old(self)@.failed(msg@),
            old(self)@.wf() ==> final(self)@.wf(),
    {
        if self.transaction_state.is_terminal() {
            return ;
        }
        let text = self.error_text(msg);
        self.error = Some(text);
        self.transaction_state = TransactionState::Failed;
    }

    /// Notes where the body of the request is spooled. A closed record stays
    /// as it is.
    pub fn set_req_body_file(&mut self, path: &str)
        ensures
            final(self)@ == (if old(self)@.terminal() {
                old(self)@
            } else {
                TrafficView { req_body_file: Some(path@), ..old(self)@ }
            }),
            old(self)@.wf() ==> final(self)@.wf(),
    {
        if self.transaction_state.is_terminal() {
            return ;
        }
        self.req_body_file = Some(String::from_str(path));
    }

    /// Notes where the body of the response is spooled. A closed record
    /// stays as it is.
    pub fn set_res_body_file(&mut self, path: &str)
        ensures
            final(self)@ == (if old(self)@.terminal() {
                old(self)@
            } else {
                TrafficView { res_body_file: Some(path@), ..old(self)@ }
            }),
            old(self)@.wf() ==> final(self)@.wf(),
    {
        if self.transaction_state.is_terminal() {
            return ;
        }
        self.res_body_file = Some(String::from_str(path));
    }

    /// Keeps the hex preview of the body of the request. A closed record
    /// stays as it is.
    pub fn set_req_body_hex(&mut self, hex: String)
        ensures
            final(self)@ == (if old(self)@.terminal() {
                old(self)@
            } else {
                TrafficView { req_body_hex: Some(hex@), ..old(self)@ }
            }),
            old(self)@.wf() ==> final(self)@.wf(),
    {
        if self.transaction_state.is_terminal() {
            return ;
        }
        self.req_body_hex = Some(hex);
    }

    /// Keeps the hex preview of the body of the response. A closed record
    /// stays as it is.
    pub fn set_res_body_hex(&mut self, hex: String)
        ensures
            final(self)@ == (if old(self)@.terminal() {
                old(self)@
            } else {
                TrafficView { res_body_hex: Some(hex@), ..old(self)@ }
            }),
            old(self)@.wf() ==> final(self)@.wf(),
    {
        if self.transaction_state.is_terminal() {
            return ;
        }
        self.res_body_hex = Some(hex);
    }

    /// Takes the headers of the request. A closed record stays as it is.
    pub fn set_req_headers(&mut self, headers: Headers)
        ensures
            final(self)@ == (if old(self)@.terminal() {
                old(self)@
            } else {
                TrafficView { req_headers: Some(headers@), ..old(self)@ }
            }),
            old(self)@.wf() ==> final(self)@.wf(),
    {
        if self.transaction_state.is_terminal() {
            return ;
        }
        self.req_headers = Some(headers);
    }

    /// The head snapshot of this record under `id` and `session_id`.
    pub fn head(&self, id: u64, session_id: &str) -> (h: TrafficHead)
        ensures
            h@ == head_of(self@, id, session_id@),
    {
        TrafficHead {
            id,
            session_id: String::from_str(session_id),
            uri: self.uri.clone(),
            method: self.method.clone(),
            status: self.status,
            transaction_state: self.transaction_state,
            http_version: clone_opt(&self.http_version),
            start_time: self.start_time,
            end_time: self.end_time,
        }
    }
}

} // verus!
