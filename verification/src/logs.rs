//! The log files of the application: how the file of a day is named, and
//! which files are out of date.

use crate::bytes::slice_bytes;
use crate::models::external_proxy::{signed_decimal, StringOrNumber};
use crate::text::{decimal, decimal_string};
use vstd::prelude::*;
use vstd::string::{StringExecFns, StringSliceAdditionalSpecFns};
use vstd::utf8::{encode_utf8, is_char_boundary};

verus! {

/// The name of the application, with which the names of its log files
/// begin.
pub open spec fn app_name() -> Seq<char> {
    "ez-shark"@
}

/// Decimal notation of a number, with a zero before a single digit.
pub open spec fn two_digits(n: nat) -> Seq<char> {
    if n < 10 {
        seq!['0'] + decimal(n)
    } else {
        decimal(n)
    }
}

/// The name of the log of a day, without its extension: the name of the
/// application, an underscore, and the year, the month and the day.
pub open spec fn log_name_of(year: i32, month: u8, day: u8) -> Seq<char> {
    app_name() + seq!['_'] + signed_decimal(year as int) + two_digits(month as nat) + two_digits(
        day as nat,
    )
}

fn append_two_digits(out: &mut String, n: u8)
    ensures
        final(out)@ == old(out)@ + two_digits(n as nat),
{
    let ghost before = out@;
    if n < 10 {
        out.append("0");
        proof {
            reveal_strlit("0");
        }
    }
    let digits = decimal_string(n as u64);
    out.append(digits.as_str());
    assert(out@ =~= before + two_digits(n as nat));
}

/// The name of the log of a day, without its extension.
pub fn log_file_name(year: i32, month: u8, day: u8) -> (r: String)
    ensures
        r@ == log_name_of(year, month, day),
{
    let mut out = String::from_str("ez-shark");
    out.append("_");
    proof {
        reveal_strlit("_");
    }
    let y = StringOrNumber::Number(year as i64).into_text();
    out.append(y.as_str());
    append_two_digits(&mut out, month);
    append_two_digits(&mut out, day);
    assert(out@ =~= log_name_of(year, month, day));
    out
}

/// Whether `a` comes before `b` in the order of texts: at the first place
/// where they differ `a` has the lesser byte, or `a` ends first.
pub open spec fn bytes_before(a: Seq<u8>, b: Seq<u8>, from: int) -> bool
    decreases a.len() - from,
{
    if from < 0 || from >= b.len() {
        false
    } else if from >= a.len() {
        true
    } else if a[from] != b[from] {
        a[from] < b[from]
    } else {
        bytes_before(a, b, from + 1)
    }
}

fn is_before(a: &[u8], b: &[u8]) -> (r: bool)
    ensures
        r == bytes_before(a@, b@, 0),
{
    let mut i: usize = 0;
    loop
        invariant
            i <= a.len(),
            i <= b.len(),
            bytes_before(a@, b@, 0) == bytes_before(a@, b@, i as int),
        decreases a.len() - i,
    {
        if i >= b.len() {
            return false;
        }
        if i >= a.len() {
            return true;
        }
        if a[i] != b[i] {
            return a[i] < b[i];
        }
        i += 1;
    }
}

fn bytes_match(hay: &[u8], needle: &[u8], at: usize) -> (r: bool)
    requires
        at + needle.len() <= hay.len(),
    ensures
        r == (hay@.subrange(at as int, at + needle@.len()) == needle@),
{
    let mut k: usize = 0;
    while k < needle.len()
        invariant
            k <= needle.len(),
            at + needle.len() <= hay.len(),
            forall|j: int| 0 <= j < k ==> hay@[at + j] == needle@[j],
        decreases needle.len() - k,
    {
        if hay[at + k] != needle[k] {
            assert(hay@.subrange(at as int, at + needle@.len())[k as int] != needle@[k as int]);
            return false;
        }
        k += 1;
    }
    assert(hay@.subrange(at as int, at + needle@.len()) =~= needle@);
    true
}

/// Whether a file is the log of a day before `today`: its name begins with
/// the name of the application and ends in `.log`, and the eight bytes
/// behind the name of the application and one more byte are whole
/// characters that come before `today` in the order of texts.
pub open spec fn old_log(file_name: &str, today: &str) -> bool {
    let name = file_name.spec_bytes();
    let app = encode_utf8(app_name());
    let ext = encode_utf8(".log"@);
    let from = (app.len() + 1) as int;
    &&& app.len() <= name.len() && name.subrange(0, app.len() as int) == app
    &&& ext.len() <= name.len() && name.subrange(name.len() - ext.len(), name.len() as int) == ext
    &&& from + 8 <= name.len()
    &&& is_char_boundary(name, from)
    &&& is_char_boundary(name, from + 8)
    &&& bytes_before(name.subrange(from, from + 8), today.spec_bytes(), 0)
}

/// Whether a file is the log of a day before `today`, given as eight
/// digits: such files are removed at startup.
pub fn is_old_log(file_name: &str, today: &str) -> (r: bool)
    ensures
        r == old_log(file_name, today),
{
    let name = file_name.as_bytes();
    let app = "ez-shark".as_bytes();
    let ext = ".log".as_bytes();
    if app.len() > name.len() || !bytes_match(name, app, 0) {
        return false;
    }
    if ext.len() > name.len() || !bytes_match(name, ext, name.len() - ext.len()) {
        return false;
    }
    if name.len() < 9 || app.len() > name.len() - 9 {
        return false;
    }
    let from: usize = app.len() + 1;
    if !file_name.is_char_boundary(from) || !file_name.is_char_boundary(from + 8) {
        return false;
    }
    let date = slice_bytes(name, from, from + 8);
    is_before(date.as_slice(), today.as_bytes())
}

} // verus!
