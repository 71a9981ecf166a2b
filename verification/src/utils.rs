//! Small helpers of the engine: file extensions and languages by MIME
//! type, hosts of URLs, previews of bodies.

use crate::text::{
    chars_of, decimal, decimal_string, eq_ignore_ascii_case, has_prefix, matches_at, same_ignoring_ascii_case,
    slice_chars, starts_with, str_eq, string_of, trim_chars, trimmed,
};
use vstd::prelude::*;
use vstd::string::{StringExecFns, StringSliceAdditionalSpecFns, StrSliceExecFns};
use vstd::utf8::{decode_utf8, is_char_boundary};

verus! {

/// The file extension for a MIME type, after the list of common types; a
/// text type that is not listed gets `.txt`, any other none.
pub open spec fn ext_name(mime: Seq<char>) -> Seq<char> {
    if mime == "audio/aac"@ {
        ".aac"@
    } else if mime == "application/x-abiword"@ {
        ".abw"@
    } else if mime == "image/apng"@ {
        ".apng"@
    } else if mime == "application/x-freearc"@ {
        ".arc"@
    } else if mime == "image/avif"@ {
        ".avif"@
    } else if mime == "video/x-msvideo"@ {
        ".avi"@
    } else if mime == "application/vnd.amazon.ebook"@ {
        ".azw"@
    } else if mime == "application/octet-stream"@ {
        ".bin"@
    } else if mime == "image/bmp"@ {
        ".bmp"@
    } else if mime == "application/x-bzip"@ {
        ".bz"@
    } else if mime == "application/x-bzip2"@ {
        ".bz2"@
    } else if mime == "application/x-cdf"@ {
        ".cda"@
    } else if mime == "application/x-csh"@ {
        ".csh"@
    } else if mime == "text/css"@ {
        ".css"@
    } else if mime == "text/csv"@ {
        ".csv"@
    } else if mime == "application/msword"@ {
        ".doc"@
    } else if mime == "application/vnd.openxmlformats-officedocument.wordprocessingml.document"@ {
        ".docx"@
    } else if mime == "application/vnd.ms-fontobject"@ {
        ".eot"@
    } else if mime == "application/epub+zip"@ {
        ".epub"@
    } else if mime == "application/gzip"@ || mime == "application/x-gzip"@ {
        ".gz"@
    } else if mime == "image/gif"@ {
        ".gif"@
    } else if mime == "text/html"@ || mime == "text/htm"@ {
        ".html"@
    } else if mime == "image/vnd.microsoft.icon"@ {
        ".ico"@
    } else if mime == "text/calendar"@ {
        ".ics"@
    } else if mime == "application/java-archive"@ {
        ".jar"@
    } else if mime == "image/jpeg"@ {
        ".jpeg"@
    } else if mime == "text/javascript"@ {
        ".js"@
    } else if mime == "application/json"@ {
        ".json"@
    } else if mime == "application/ld+json"@ {
        ".jsonld"@
    } else if mime == "audio/midi"@ || mime == "audio/x-midi"@ {
        ".mid"@
    } else if mime == "audio/mpeg"@ {
        ".mp3"@
    } else if mime == "video/mp4"@ {
        ".mp4"@
    } else if mime == "video/mpeg"@ {
        ".mpeg"@
    } else if mime == "application/vnd.apple.installer+xml"@ {
        ".mpkg"@
    } else if mime == "application/vnd.oasis.opendocument.presentation"@ {
        ".odp"@
    } else if mime == "application/vnd.oasis.opendocument.spreadsheet"@ {
        ".ods"@
    } else if mime == "application/vnd.oasis.opendocument.text"@ {
        ".odt"@
    } else if mime == "audio/ogg"@ {
        ".oga"@
    } else if mime == "video/ogg"@ {
        ".ogv"@
    } else if mime == "application/ogg"@ {
        ".ogx"@
    } else if mime == "font/otf"@ {
        ".otf"@
    } else if mime == "image/png"@ {
        ".png"@
    } else if mime == "application/pdf"@ {
        ".pdf"@
    } else if mime == "application/x-httpd-php"@ {
        ".php"@
    } else if mime == "application/vnd.ms-powerpoint"@ {
        ".ppt"@
    } else if mime == "application/vnd.openxmlformats-officedocument.presentationml.presentation"@ {
        ".pptx"@
    } else if mime == "application/vnd.rar"@ {
        ".rar"@
    } else if mime == "application/rtf"@ {
        ".rtf"@
    } else if mime == "application/x-sh"@ {
        ".sh"@
    } else if mime == "image/svg+xml"@ {
        ".svg"@
    } else if mime == "application/x-tar"@ {
        ".tar"@
    } else if mime == "image/tiff"@ {
        ".tif"@
    } else if mime == "video/mp2t"@ {
        ".ts"@
    } else if mime == "font/ttf"@ {
        ".ttf"@
    } else if mime == "text/plain"@ {
        ".txt"@
    } else if mime == "application/vnd.visio"@ {
        ".vsd"@
    } else if mime == "audio/wav"@ {
        ".wav"@
    } else if mime == "audio/webm"@ {
        ".weba"@
    } else if mime == "video/webm"@ {
        ".webm"@
    } else if mime == "image/webp"@ {
        ".webp"@
    } else if mime == "font/woff"@ {
        ".woff"@
    } else if mime == "font/woff2"@ {
        ".woff2"@
    } else if mime == "application/xhtml+xml"@ {
        ".xhtml"@
    } else if mime == "application/vnd.ms-excel"@ {
        ".xls"@
    } else if mime == "application/vnd.openxmlformats-officedocument.spreadsheetml.sheet"@ {
        ".xlsx"@
    } else if mime == "application/xml"@ || mime == "text/xml"@ {
        ".xml"@
    } else if mime == "application/vnd.mozilla.xul+xml"@ {
        ".xul"@
    } else if mime == "application/zip"@ || mime == "x-zip-compressed"@ {
        ".zip"@
    } else if mime == "video/3gpp"@ || mime == "audio/3gpp"@ {
        ".3gp"@
    } else if mime == "video/3gpp2"@ || mime == "audio/3gpp2"@ {
        ".3g2"@
    } else if mime == "application/x-7z-compressed"@ {
        ".7z"@
    } else if has_prefix(mime, "text/"@) {
        ".txt"@
    } else {
        ""@
    }
}

/// The file extension under which a body of this MIME type is spooled.
pub fn to_ext_name(mime: &str) -> (r: &'static str)
    ensures
        r@ == ext_name(mime@),
{
    if str_eq(mime, "audio/aac") {
        ".aac"
    } else if str_eq(mime, "application/x-abiword") {
        ".abw"
    } else if str_eq(mime, "image/apng") {
        ".apng"
    } else if str_eq(mime, "application/x-freearc") {
        ".arc"
    } else if str_eq(mime, "image/avif") {
        ".avif"
    } else if str_eq(mime, "video/x-msvideo") {
        ".avi"
    } else if str_eq(mime, "application/vnd.amazon.ebook") {
        ".azw"
    } else if str_eq(mime, "application/octet-stream") {
        ".bin"
    } else if str_eq(mime, "image/bmp") {
        ".bmp"
    } else if str_eq(mime, "application/x-bzip") {
        ".bz"
    } else if str_eq(mime, "application/x-bzip2") {
        ".bz2"
    } else if str_eq(mime, "application/x-cdf") {
        ".cda"
    } else if str_eq(mime, "application/x-csh") {
        ".csh"
    } else if str_eq(mime, "text/css") {
        ".css"
    } else if str_eq(mime, "text/csv") {
        ".csv"
    } else if str_eq(mime, "application/msword") {
        ".doc"
    } else if str_eq(mime, "application/vnd.openxmlformats-officedocument.wordprocessingml.document") {
        ".docx"
    } else if str_eq(mime, "application/vnd.ms-fontobject") {
        ".eot"
    } else if str_eq(mime, "application/epub+zip") {
        ".epub"
    } else if str_eq(mime, "application/gzip") || str_eq(mime, "application/x-gzip") {
        ".gz"
    } else if str_eq(mime, "image/gif") {
        ".gif"
    } else if str_eq(mime, "text/html") || str_eq(mime, "text/htm") {
        ".html"
    } else if str_eq(mime, "image/vnd.microsoft.icon") {
        ".ico"
    } else if str_eq(mime, "text/calendar") {
        ".ics"
    } else if str_eq(mime, "application/java-archive") {
        ".jar"
    } else if str_eq(mime, "image/jpeg") {
        ".jpeg"
    } else if str_eq(mime, "text/javascript") {
        ".js"
    } else if str_eq(mime, "application/json") {
        ".json"
    } else if str_eq(mime, "application/ld+json") {
        ".jsonld"
    } else if str_eq(mime, "audio/midi") || str_eq(mime, "audio/x-midi") {
        ".mid"
    } else if str_eq(mime, "audio/mpeg") {
        ".mp3"
    } else if str_eq(mime, "video/mp4") {
        ".mp4"
    } else if str_eq(mime, "video/mpeg") {
        ".mpeg"
    } else if str_eq(mime, "application/vnd.apple.installer+xml") {
        ".mpkg"
    } else if str_eq(mime, "application/vnd.oasis.opendocument.presentation") {
        ".odp"
    } else if str_eq(mime, "application/vnd.oasis.opendocument.spreadsheet") {
        ".ods"
    } else if str_eq(mime, "application/vnd.oasis.opendocument.text") {
        ".odt"
    } else if str_eq(mime, "audio/ogg") {
        ".oga"
    } else if str_eq(mime, "video/ogg") {
        ".ogv"
    } else if str_eq(mime, "application/ogg") {
        ".ogx"
    } else if str_eq(mime, "font/otf") {
        ".otf"
    } else if str_eq(mime, "image/png") {
        ".png"
    } else if str_eq(mime, "application/pdf") {
        ".pdf"
    } else if str_eq(mime, "application/x-httpd-php") {
        ".php"
    } else if str_eq(mime, "application/vnd.ms-powerpoint") {
        ".ppt"
    } else if str_eq(mime, "application/vnd.openxmlformats-officedocument.presentationml.presentation") {
        ".pptx"
    } else if str_eq(mime, "application/vnd.rar") {
        ".rar"
    } else if str_eq(mime, "application/rtf") {
        ".rtf"
    } else if str_eq(mime, "application/x-sh") {
        ".sh"
    } else if str_eq(mime, "image/svg+xml") {
        ".svg"
    } else if str_eq(mime, "application/x-tar") {
        ".tar"
    } else if str_eq(mime, "image/tiff") {
        ".tif"
    } else if str_eq(mime, "video/mp2t") {
        ".ts"
    } else if str_eq(mime, "font/ttf") {
        ".ttf"
    } else if str_eq(mime, "text/plain") {
        ".txt"
    } else if str_eq(mime, "application/vnd.visio") {
        ".vsd"
    } else if str_eq(mime, "audio/wav") {
        ".wav"
    } else if str_eq(mime, "audio/webm") {
        ".weba"
    } else if str_eq(mime, "video/webm") {
        ".webm"
    } else if str_eq(mime, "image/webp") {
        ".webp"
    } else if str_eq(mime, "font/woff") {
        ".woff"
    } else if str_eq(mime, "font/woff2") {
        ".woff2"
    } else if str_eq(mime, "application/xhtml+xml") {
        ".xhtml"
    } else if str_eq(mime, "application/vnd.ms-excel") {
        ".xls"
    } else if str_eq(mime, "application/vnd.openxmlformats-officedocument.spreadsheetml.sheet") {
        ".xlsx"
    } else if str_eq(mime, "application/xml") || str_eq(mime, "text/xml") {
        ".xml"
    } else if str_eq(mime, "application/vnd.mozilla.xul+xml") {
        ".xul"
    } else if str_eq(mime, "application/zip") || str_eq(mime, "x-zip-compressed") {
        ".zip"
    } else if str_eq(mime, "video/3gpp") || str_eq(mime, "audio/3gpp") {
        ".3gp"
    } else if str_eq(mime, "video/3gpp2") || str_eq(mime, "audio/3gpp2") {
        ".3g2"
    } else if str_eq(mime, "application/x-7z-compressed") {
        ".7z"
    } else if starts_with(mime, "text/") {
        ".txt"
    } else {
        ""
    }
}

/// `s` without a leading `x-`.
pub open spec fn without_x(s: Seq<char>) -> Seq<char> {
    if has_prefix(s, "x-"@) {
        s.subrange(2, s.len() as int)
    } else {
        s
    }
}

/// The language tag of a fenced block for a MIME type: what follows
/// `text/` or `application/`, without a leading `x-`; empty for other types.
pub open spec fn md_lang(mime: Seq<char>) -> Seq<char> {
    if has_prefix(mime, "text/"@) {
        without_x(mime.subrange(5, mime.len() as int))
    } else if has_prefix(mime, "application/"@) {
        without_x(mime.subrange(12, mime.len() as int))
    } else {
        Seq::empty()
    }
}

/// The language tag of a fenced block for a MIME type.
pub fn to_md_lang(mime: &str) -> (r: &str)
    ensures
        r@ == md_lang(mime@),
{
    proof {
        reveal_strlit("text/");
        reveal_strlit("application/");
        reveal_strlit("x-");
    }
    let m = chars_of(mime);
    let text = chars_of("text/");
    let application = chars_of("application/");
    let x = chars_of("x-");
    let n: usize = m.len();
    let from: usize = if matches_at(m.as_slice(), text.as_slice(), 0) {
        5
    } else if matches_at(m.as_slice(), application.as_slice(), 0) {
        12
    } else {
        let r = mime.substring_char(0, 0);
        assert(r@ =~= Seq::<char>::empty());
        return r;
    };
    let rest = slice_chars(m.as_slice(), from, n);
    if matches_at(rest.as_slice(), x.as_slice(), 0) {
        let r = mime.substring_char(from + 2, n);
        assert(r@ =~= rest@.subrange(2, rest@.len() as int));
        r
    } else {
        mime.substring_char(from, n)
    }
}

/// The index that follows `idx` in a list of `len` items, going round.
pub fn next_idx(len: usize, idx: usize) -> (r: usize)
    ensures
        r == (if len == 0 || idx >= len - 1 {
            0int
        } else {
            idx + 1
        }),
{
    if len == 0 || idx >= len - 1 {
        0
    } else {
        idx + 1
    }
}

/// The index that precedes `idx` in a list of `len` items, going round.
pub fn prev_idx(len: usize, idx: usize) -> (r: usize)
    ensures
        r == (if idx == 0 {
            if len == 0 {
                0int
            } else {
                len - 1
            }
        } else {
            idx - 1
        }),
{
    if idx == 0 {
        if len == 0 {
            0
        } else {
            len - 1
        }
    } else {
        idx - 1
    }
}

/// The index of the first `c` in `s` at or after `from`; the length of `s`
/// where there is none.
pub open spec fn index_of(s: Seq<char>, c: char, from: int) -> int
    decreases s.len() - from,
{
    if from < 0 || from >= s.len() {
        s.len() as int
    } else if s[from] == c {
        from
    } else {
        index_of(s, c, from + 1)
    }
}

fn find_char(s: &[char], c: char, from: usize) -> (r: usize)
    ensures
        r == index_of(s@, c, from as int),
        from <= s.len() ==> from <= r <= s.len(),
{
    if from >= s.len() {
        return s.len();
    }
    let mut i: usize = from;
    while i < s.len()
        invariant
            from <= i <= s.len(),
            index_of(s@, c, from as int) == index_of(s@, c, i as int),
        decreases s.len() - i,
    {
        if s[i] == c {
            return i;
        }
        i += 1;
    }
    s.len()
}

/// The value of a decimal digit.
pub open spec fn digit_value(c: char) -> Option<nat> {
    if '0' <= c <= '9' {
        Some(((c as u8) - 48) as nat)
    } else {
        None
    }
}

/// The number that a part of a dotted IPv4 address stands for: one to three
/// digits, no leading zero before another digit, at most 255.
pub open spec fn octet(s: Seq<char>) -> Option<nat> {
    if s.len() == 1 {
        digit_value(s[0])
    } else if s.len() == 2 {
        match (digit_value(s[0]), digit_value(s[1])) {
            (Some(a), Some(b)) => if a == 0 {
                None
            } else {
                Some(10 * a + b)
            },
            _ => None,
        }
    } else if s.len() == 3 {
        match (digit_value(s[0]), digit_value(s[1]), digit_value(s[2])) {
            (Some(a), Some(b), Some(c)) => if a == 0 || 100 * a + 10 * b + c > 255 {
                None
            } else {
                Some(100 * a + 10 * b + c)
            },
            _ => None,
        }
    } else {
        None
    }
}

/// Whether `host` is a dotted IPv4 address in the loopback block: four
/// parts between three dots, the first of them 127.
pub open spec fn loopback_v4(host: Seq<char>) -> bool {
    let n = host.len() as int;
    let d1 = index_of(host, '.', 0);
    let d2 = index_of(host, '.', d1 + 1);
    let d3 = index_of(host, '.', d2 + 1);
    d1 < n && d2 < n && d3 < n && octet(host.subrange(0, d1)) == Some(127nat) && octet(
        host.subrange(d1 + 1, d2),
    ) is Some && octet(host.subrange(d2 + 1, d3)) is Some && octet(host.subrange(d3 + 1, n)) is Some
}

fn digit_of_char(c: char) -> (r: Option<u32>)
    ensures
        match r {
            Some(v) => digit_value(c) == Some(v as nat) && v <= 9,
            None => digit_value(c) is None,
        },
{
    if '0' <= c && c <= '9' {
        let v: u32 = (c as u8 - 48) as u32;
        Some(v)
    } else {
        None
    }
}

fn octet_of(s: &[char]) -> (r: Option<u32>)
    ensures
        match r {
            Some(v) => octet(s@) == Some(v as nat),
            None => octet(s@) is None,
        },
{
    if s.len() == 0 || s.len() > 3 {
        return None;
    }
    let a = match digit_of_char(s[0]) {
        Some(a) => a,
        None => {
            return None;
        },
    };
    if s.len() == 1 {
        return Some(a);
    }
    let b = match digit_of_char(s[1]) {
        Some(b) => b,
        None => {
            return None;
        },
    };
    if a == 0 {
        return None;
    }
    if s.len() == 2 {
        return Some(10 * a + b);
    }
    let c = match digit_of_char(s[2]) {
        Some(c) => c,
        None => {
            return None;
        },
    };
    let v: u32 = 100 * a + 10 * b + c;
    if v > 255 {
        None
    } else {
        Some(v)
    }
}

fn is_loopback_v4(host: &[char]) -> (r: bool)
    ensures
        r == loopback_v4(host@),
{
    let n: usize = host.len();
    let d1 = find_char(host, '.', 0);
    if d1 >= n {
        return false;
    }
    let d2 = find_char(host, '.', d1 + 1);
    if d2 >= n {
        return false;
    }
    let d3 = find_char(host, '.', d2 + 1);
    if d3 >= n {
        return false;
    }
    let first = slice_chars(host, 0, d1);
    let second = slice_chars(host, d1 + 1, d2);
    let third = slice_chars(host, d2 + 1, d3);
    let fourth = slice_chars(host, d3 + 1, n);
    match octet_of(first.as_slice()) {
        Some(v) => v == 127 && octet_of(second.as_slice()).is_some() && octet_of(
            third.as_slice(),
        ).is_some() && octet_of(fourth.as_slice()).is_some(),
        None => false,
    }
}

/// Whether `host` names this machine: `localhost` in any letter case, the
/// loopback addresses `127.0.0.1` and `::1` (with or without brackets), or
/// any dotted address in the loopback block.
pub open spec fn local_host(host: Seq<char>) -> bool {
    same_ignoring_ascii_case(host, "localhost"@) || host == "127.0.0.1"@ || host == "[::1]"@
        || host == "::1"@ || loopback_v4(host)
}

/// Whether `host` names this machine.
pub fn is_local_host(host: &str) -> (r: bool)
    ensures
        r == local_host(host@),
{
    let h = chars_of(host);
    let name = chars_of("localhost");
    if eq_ignore_ascii_case(h.as_slice(), name.as_slice()) {
        return true;
    }
    if str_eq(host, "127.0.0.1") || str_eq(host, "[::1]") || str_eq(host, "::1") {
        return true;
    }
    is_loopback_v4(h.as_slice())
}

/// The host of a URL as the url crate reads it: nothing where the text is
/// no absolute URL, or where the URL has no host.
pub uninterp spec fn url_host_of(url: Seq<char>) -> Option<Seq<char>>;

/// Trusted: `Url::parse` of the url crate and, on the parsed URL,
/// `host_str`. The result is named, not described.
#[verifier::external_body]
fn url_host(url: &str) -> (r: Option<String>)
    ensures
        r.deep_view() == url_host_of(url@),
{
    match url::Url::parse(url) {
        Ok(parsed) => parsed.host_str().map(|h| h.to_string()),
        Err(_) => None,
    }
}

/// Whether a request goes to this machine.
pub open spec fn local_request(url: Seq<char>) -> bool {
    match url_host_of(url) {
        Some(host) => local_host(host),
        None => false,
    }
}

/// Whether the request for `url` goes to this machine.
pub fn is_local_request(url: &str) -> (r: bool)
    ensures
        r == local_request(url@),
{
    match url_host(url) {
        Some(host) => is_local_host(host.as_str()),
        None => false,
    }
}

/// The index of the first `://` in `s` at or after `from`; the length of
/// `s` where there is none.
pub open spec fn scheme_mark(s: Seq<char>, from: int) -> int
    decreases s.len() - from,
{
    if from < 0 || from + 3 > s.len() {
        s.len() as int
    } else if s.subrange(from, from + 3) == "://"@ {
        from
    } else {
        scheme_mark(s, from + 1)
    }
}

/// What stands where the host of a URL is expected, for a text that the URL
/// parser gives no host for: what follows the first `://` (the whole text
/// without one), up to the next `://`, the first `/` or the first `?`.
pub open spec fn fallback_domain(url: Seq<char>) -> Seq<char> {
    let n = url.len() as int;
    let m1 = scheme_mark(url, 0);
    let piece = if m1 >= n {
        url
    } else {
        url.subrange(m1 + 3, scheme_mark(url, m1 + 3))
    };
    let up_to_slash = piece.subrange(0, index_of(piece, '/', 0));
    up_to_slash.subrange(0, index_of(up_to_slash, '?', 0))
}

/// The domain that a URL names.
pub open spec fn domain_of(url: Seq<char>) -> Seq<char> {
    match url_host_of(url) {
        Some(host) => host,
        None => fallback_domain(url),
    }
}

fn find_scheme_mark(s: &[char], mark: &[char], from: usize) -> (r: usize)
    requires
        mark@ == "://"@,
        mark@.len() == 3,
        from <= s.len(),
    ensures
        r == scheme_mark(s@, from as int),
        from <= r <= s.len(),
        r < s.len() ==> r + 3 <= s.len(),
{
    let mut i: usize = from;
    while i < s.len() && s.len() - i >= 3
        invariant
            from <= i <= s.len(),
            mark@ == "://"@,
            mark@.len() == 3,
            scheme_mark(s@, from as int) == scheme_mark(s@, i as int),
        decreases s.len() - i,
    {
        if matches_at(s, mark, i) {
            return i;
        }
        i += 1;
    }
    s.len()
}

/// The domain of a text that the URL parser gives no host for.
pub fn domain_by_hand(url: &str) -> (r: String)
    ensures
        r@ == fallback_domain(url@),
{
    proof {
        reveal_strlit("://");
    }
    let u = chars_of(url);
    let mark = chars_of("://");
    let n: usize = u.len();
    let m1 = find_scheme_mark(u.as_slice(), mark.as_slice(), 0);
    let piece = if m1 >= n {
        let all = slice_chars(u.as_slice(), 0, n);
        assert(all@ =~= u@);
        all
    } else {
        let m2 = find_scheme_mark(u.as_slice(), mark.as_slice(), m1 + 3);
        slice_chars(u.as_slice(), m1 + 3, m2)
    };
    let slash = find_char(piece.as_slice(), '/', 0);
    let head = slice_chars(piece.as_slice(), 0, slash);
    let question = find_char(head.as_slice(), '?', 0);
    let domain = slice_chars(head.as_slice(), 0, question);
    string_of(domain.as_slice())
}

/// The domain that `url` names: its host where the URL parser finds one,
/// else what stands in the host's place.
pub fn extract_domain(url: &str) -> (r: String)
    ensures
        r@ == domain_of(url@),
{
    match url_host(url) {
        Some(host) => host,
        None => domain_by_hand(url),
    }
}

/// The MIME type that the start of a base64 text gives away.
pub open spec fn sniffed_mime(data: Seq<char>) -> Option<Seq<char>> {
    if has_prefix(data, "iVBOR"@) {
        Some("image/png"@)
    } else if has_prefix(data, "/9j/"@) {
        Some("image/jpeg"@)
    } else if has_prefix(data, "R0lG"@) {
        Some("image/gif"@)
    } else if has_prefix(data, "UklGR"@) {
        Some("image/webp"@)
    } else if has_prefix(data, "Qk"@) {
        Some("image/bmp"@)
    } else if has_prefix(data, "PD94"@) {
        Some("image/svg+xml"@)
    } else if has_prefix(data, "JVBERi0"@) {
        Some("application/pdf"@)
    } else {
        None
    }
}

/// A base64 text as a data URL: trimmed; left as it is where it is a data
/// URL already or where its type is not recognised.
pub open spec fn data_url(base64_data: Seq<char>) -> Seq<char> {
    let clean = trimmed(base64_data);
    if has_prefix(clean, "data:"@) {
        clean
    } else {
        match sniffed_mime(clean) {
            Some(mime) => "data:"@ + mime + ";base64,"@ + clean,
            None => clean,
        }
    }
}

fn sniff_mime(clean: &str) -> (r: Option<&'static str>)
    ensures
        r is Some == sniffed_mime(clean@) is Some,
        r matches Some(m) ==> Some(m@) == sniffed_mime(clean@),
{
    if starts_with(clean, "iVBOR") {
        Some("image/png")
    } else if starts_with(clean, "/9j/") {
        Some("image/jpeg")
    } else if starts_with(clean, "R0lG") {
        Some("image/gif")
    } else if starts_with(clean, "UklGR") {
        Some("image/webp")
    } else if starts_with(clean, "Qk") {
        Some("image/bmp")
    } else if starts_with(clean, "PD94") {
        Some("image/svg+xml")
    } else if starts_with(clean, "JVBERi0") {
        Some("application/pdf")
    } else {
        None
    }
}

/// Makes a data URL of a base64 text whose type can be told from its start.
pub fn add_data_url_prefix(base64_data: &str) -> (r: String)
    ensures
        r@ == data_url(base64_data@),
{
    let raw = chars_of(base64_data);
    let kept = trim_chars(raw.as_slice());
    let clean = string_of(kept.as_slice());
    if starts_with(clean.as_str(), "data:") {
        return clean;
    }
    match sniff_mime(clean.as_str()) {
        Some(mime) => {
            let mut url = String::from_str("data:");
            url.append(mime);
            url.append(";base64,");
            url.append(clean.as_str());
            url
        },
        None => clean,
    }
}

/// The base64 form of `data` in the standard alphabet, without padding.
pub uninterp spec fn base64_no_pad_of(data: Seq<u8>) -> Seq<char>;

/// Trusted: `encode` of the base64 crate's `BASE64_STANDARD_NO_PAD` engine.
/// The result is named, not described.
#[verifier::external_body]
pub fn base64_encode(data: &[u8]) -> (r: String)
    ensures
        r@ == base64_no_pad_of(data@),
{
    base64::Engine::encode(&base64::prelude::BASE64_STANDARD_NO_PAD, data)
}

/// The number of columns that a text takes on a screen, as the
/// unicode-width crate counts them.
pub uninterp spec fn display_width(text: Seq<char>) -> nat;

/// Trusted: `UnicodeWidthStr::width` of the unicode-width crate. The result
/// is named, not described.
#[verifier::external_body]
fn text_width(text: &str) -> (w: usize)
    ensures
        w == display_width(text@),
{
    unicode_width::UnicodeWidthStr::width(text)
}

/// A text cut to `width` columns at its end: a text that is wider keeps its
/// first `width - 1` bytes and ends in an ellipsis.
pub open spec fn tail_cut(text: &str, width: usize) -> Seq<char> {
    if display_width(text@) > width {
        decode_utf8(text.spec_bytes().subrange(0, width - 1)) + "…"@
    } else {
        text@
    }
}

/// Whether a text can be cut to `width` columns at its end: where it is
/// wider, a character must end at its byte `width - 1`.
pub open spec fn tail_cut_defined(text: &str, width: usize) -> bool {
    display_width(text@) > width ==> width >= 1 && is_char_boundary(text.spec_bytes(), width - 1)
}

/// Cuts a text to `width` columns at its end.
pub fn ellipsis_tail(text: &str, width: usize) -> (r: String)
    requires
        tail_cut_defined(text, width),
    ensures
        r@ == tail_cut(text, width),
{
    broadcast use vstd::utf8::encode_utf8_decode_utf8;

    let text_width = text_width(text);
    if text_width > width {
        let (head, _) = text.split_at(width - 1);
        let mut out = String::from_str(head);
        out.append("…");
        assert(decode_utf8(head.spec_bytes()) == head@);
        out
    } else {
        String::from_str(text)
    }
}

/// Cuts a text to `width` columns at its end; nothing where the text is
/// wider and no character ends at its byte `width - 1`.
pub fn try_ellipsis_tail(text: &str, width: usize) -> (r: Option<String>)
    ensures
        tail_cut_defined(text, width) ==> (r matches Some(s) && s@ == tail_cut(text, width)),
        !tail_cut_defined(text, width) ==> r is None,
{
    if text_width(text) > width && !(width >= 1 && text.is_char_boundary(width - 1)) {
        None
    } else {
        Some(ellipsis_tail(text, width))
    }
}

/// The byte at which a text that is wider than `width` columns is cut at
/// its head.
pub open spec fn head_cut_at(text: &str, width: usize) -> int {
    display_width(text@) - width + 1
}

/// A text cut to `width` columns at its head: a text that is wider begins
/// with an ellipsis and keeps its bytes from `head_cut_at` on.
pub open spec fn head_cut(text: &str, width: usize) -> Seq<char> {
    if display_width(text@) > width {
        "…"@ + decode_utf8(
            text.spec_bytes().subrange(head_cut_at(text, width), text.spec_bytes().len() as int),
        )
    } else {
        text@
    }
}

/// Whether a text can be cut to `width` columns at its head: where it is
/// wider, a character must begin at its byte `head_cut_at`.
pub open spec fn head_cut_defined(text: &str, width: usize) -> bool {
    display_width(text@) > width ==> is_char_boundary(text.spec_bytes(), head_cut_at(text, width))
}

/// Cuts a text to `width` columns at its head.
pub fn ellipsis_head(text: &str, width: usize) -> (r: String)
    requires
        head_cut_defined(text, width),
    ensures
        r@ == head_cut(text, width),
{
    broadcast use vstd::utf8::encode_utf8_decode_utf8;

    broadcast use vstd::utf8::encode_utf8_valid_utf8;

    let text_width = text_width(text);
    if text_width > width {
        let over: usize = text_width - width;
        let n: usize = text.as_bytes().len();
        assert(over + 1 <= n);
        let (_, tail) = text.split_at(over + 1);
        let mut out = String::from_str("…");
        out.append(tail);
        assert(decode_utf8(tail.spec_bytes()) == tail@);
        out
    } else {
        String::from_str(text)
    }
}

/// Cuts a text to `width` columns at its head; nothing where the text is
/// wider and no character begins at its byte `head_cut_at`.
pub fn try_ellipsis_head(text: &str, width: usize) -> (r: Option<String>)
    ensures
        head_cut_defined(text, width) ==> (r matches Some(s) && s@ == head_cut(text, width)),
        !head_cut_defined(text, width) ==> r is None,
{
    broadcast use vstd::utf8::encode_utf8_valid_utf8;

    let text_width = text_width(text);
    if text_width > width {
        let over: usize = text_width - width;
        let n: usize = text.as_bytes().len();
        if over >= n || !text.is_char_boundary(over + 1) {
            return None;
        }
    }
    Some(ellipsis_head(text, width))
}

/// 1024 to the power `i`.
pub open spec fn kibi(i: nat) -> nat
    decreases i,
{
    if i == 0 {
        1
    } else {
        1024 * kibi((i - 1) as nat)
    }
}

/// The number of units in which sizes are named.
pub const SIZE_UNITS: usize = 5;

/// The name of the `i`-th unit of size.
pub open spec fn size_unit_name(i: nat) -> Seq<char> {
    if i == 0 {
        "b"@
    } else if i == 1 {
        "kb"@
    } else if i == 2 {
        "mb"@
    } else if i == 3 {
        "gb"@
    } else {
        "tb"@
    }
}

/// The unit in which a size is shown: how many times 1024 can be taken out
/// of it, counted no further than `SIZE_UNITS`.
pub open spec fn size_unit(bytes: nat, i: nat) -> nat
    decreases SIZE_UNITS - i,
{
    if i < SIZE_UNITS && kibi(i + 1) <= bytes {
        size_unit(bytes, i + 1)
    } else {
        i
    }
}

/// The text for a size that is a whole number of its unit: nothing for no
/// size, a bare zero, else the number and the unit's name. There is none
/// where the size is not a whole number of its unit, or is beyond the
/// named units.
pub open spec fn size_text(bytes: Option<u64>) -> Option<Seq<char>> {
    match bytes {
        None => Some(Seq::empty()),
        Some(b) => if b == 0 {
            Some("0"@)
        } else {
            let i = size_unit(b as nat, 0);
            if i < SIZE_UNITS && b as nat % kibi(i) == 0 {
                Some(decimal(b as nat / kibi(i)) + size_unit_name(i))
            } else {
                None
            }
        },
    }
}

/// 1024 to the power `i`, computed.
fn kibi_of(i: usize) -> (r: u64)
    requires
        i <= SIZE_UNITS + 1,
    ensures
        r == kibi(i as nat),
{
    let mut r: u64 = 1;
    let mut k: usize = 0;
    while k < i
        invariant
            k <= i <= SIZE_UNITS + 1,
            r == kibi(k as nat),
            r <= 0x1000_0000_0000_0000u64,
            k < 6 ==> r <= 0x4_0000_0000_0000u64,
        decreases i - k,
    {
        assert(kibi((k + 1) as nat) == 1024 * kibi(k as nat));
        assert(k == 5 ==> r == 0x4_0000_0000_0000u64) by {
            reveal_with_fuel(kibi, 7);
        }
        assert(k < 5 ==> r <= 0x100_0000_0000u64) by {
            reveal_with_fuel(kibi, 7);
        }
        r = r * 1024;
        k += 1;
    }
    r
}

/// The index of the unit in which a size is shown.
pub fn size_unit_index(bytes: u64) -> (i: usize)
    ensures
        i == size_unit(bytes as nat, 0),
        i <= SIZE_UNITS,
{
    let mut i: usize = 0;
    while i < SIZE_UNITS && kibi_of(i + 1) <= bytes
        invariant
            i <= SIZE_UNITS,
            size_unit(bytes as nat, 0) == size_unit(bytes as nat, i as nat),
        decreases SIZE_UNITS - i,
    {
        i += 1;
    }
    i
}

fn size_unit_text(i: usize) -> (r: &'static str)
    ensures
        r@ == size_unit_name(i as nat),
{
    if i == 0 {
        "b"
    } else if i == 1 {
        "kb"
    } else if i == 2 {
        "mb"
    } else if i == 3 {
        "gb"
    } else {
        "tb"
    }
}

/// Shows a size that is a whole number of its unit, such as `3kb`; nothing
/// where it is not, or is beyond the named units.
pub fn format_size(bytes: Option<u64>) -> (r: Option<String>)
    ensures
        r.deep_view() == size_text(bytes),
{
    let b = match bytes {
        None => {
            let r = String::from_str("");
            assert(r@ =~= Seq::<char>::empty()) by {
                reveal_strlit("");
            }
            return Some(r);
        },
        Some(b) => b,
    };
    if b == 0 {
        return Some(String::from_str("0"));
    }
    let i = size_unit_index(b);
    if i >= SIZE_UNITS {
        return None;
    }
    let unit = kibi_of(i);
    assert(unit > 0) by {
        reveal_with_fuel(kibi, 7);
    }
    if b % unit != 0 {
        return None;
    }
    let mut r = decimal_string(b / unit);
    r.append(size_unit_text(i));
    Some(r)
}

/// The text for a span of time in milliseconds that is shown as a whole
/// number: nothing for no span, a bare zero, else the number of
/// milliseconds, seconds, minutes or hours, rounded down, with the name of
/// the unit. There is none for more than one and less than ten seconds.
pub open spec fn time_text(delta: Option<u64>) -> Option<Seq<char>> {
    match delta {
        None => Some(Seq::empty()),
        Some(d) => if d == 0 {
            Some("0"@)
        } else if 1000 < d < 10000 {
            None
        } else if d < 1000 {
            Some(decimal(d as nat) + "ms"@)
        } else if d / 1000 < 60 {
            Some(decimal(d as nat / 1000) + "s"@)
        } else if d / 60000 < 60 {
            Some(decimal(d as nat / 60000) + "min"@)
        } else {
            Some(decimal(d as nat / 3600000) + "h"@)
        },
    }
}

/// Shows a span of time in milliseconds as a whole number with its unit,
/// such as `12ms` or `3min`; nothing for more than one and less than ten
/// seconds.
pub fn format_time_delta(delta: Option<u64>) -> (r: Option<String>)
    ensures
        r.deep_view() == time_text(delta),
{
    let d = match delta {
        None => {
            let r = String::from_str("");
            assert(r@ =~= Seq::<char>::empty()) by {
                reveal_strlit("");
            }
            return Some(r);
        },
        Some(d) => d,
    };
    if d == 0 {
        return Some(String::from_str("0"));
    }
    if d > 1000 && d < 10000 {
        return None;
    }
    if d < 1000 {
        let mut r = decimal_string(d);
        r.append("ms");
        return Some(r);
    }
    let seconds: u64 = d / 1000;
    if seconds < 60 {
        let mut r = decimal_string(seconds);
        r.append("s");
        return Some(r);
    }
    let minutes: u64 = seconds / 60;
    assert(minutes == d / 60000);
    if minutes < 60 {
        let mut r = decimal_string(minutes);
        r.append("min");
        return Some(r);
    }
    let hours: u64 = minutes / 60;
    assert(hours == d / 3600000);
    let mut r = decimal_string(hours);
    r.append("h");
    Some(r)
}

} // verus!
