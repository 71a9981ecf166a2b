//! Bodies as they are shown to the operator: as text, as base64, as hex.

use crate::bytes::copy_bytes;
use crate::text::{digit_char, string_from_utf8, string_of};
use crate::traffic::Body;
use crate::utils::{base64_encode, base64_no_pad_of};
use vstd::prelude::*;
use vstd::string::StringExecFns;
use vstd::utf8::{decode_utf8, valid_utf8};

verus! {

/// The hexadecimal digit for a value below sixteen; letters in upper case
/// where `upper` holds.
pub open spec fn hex_digit(v: nat, upper: bool) -> char {
    if v < 10 {
        digit_char(v)
    } else if v == 10 {
        if upper {
            'A'
        } else {
            'a'
        }
    } else if v == 11 {
        if upper {
            'B'
        } else {
            'b'
        }
    } else if v == 12 {
        if upper {
            'C'
        } else {
            'c'
        }
    } else if v == 13 {
        if upper {
            'D'
        } else {
            'd'
        }
    } else if v == 14 {
        if upper {
            'E'
        } else {
            'e'
        }
    } else {
        if upper {
            'F'
        } else {
            'f'
        }
    }
}

/// The two hexadecimal digits of a byte.
pub open spec fn hex_pair(b: u8, upper: bool) -> Seq<char> {
    seq![hex_digit((b / 16) as nat, upper), hex_digit((b % 16) as nat, upper)]
}

/// The bytes in hexadecimal, two digits in lower case for each.
pub open spec fn hex_of(bytes: Seq<u8>) -> Seq<char>
    decreases bytes.len(),
{
    if bytes.len() == 0 {
        Seq::empty()
    } else {
        hex_of(bytes.drop_last()) + hex_pair(bytes.last(), false)
    }
}

/// The bytes as a list in brackets, two digits in upper case for each,
/// with a comma and a blank between them.
pub open spec fn hex_list_of(bytes: Seq<u8>) -> Seq<char> {
    seq!['['] + hex_items(bytes) + seq![']']
}

/// The inside of the list of `hex_list_of`.
pub open spec fn hex_items(bytes: Seq<u8>) -> Seq<char>
    decreases bytes.len(),
{
    if bytes.len() == 0 {
        Seq::empty()
    } else if bytes.len() == 1 {
        hex_pair(bytes[0], true)
    } else {
        hex_items(bytes.drop_last()) + seq![',', ' '] + hex_pair(bytes.last(), true)
    }
}

fn hex_char(v: u8, upper: bool) -> (c: char)
    requires
        v < 16,
    ensures
        c == hex_digit(v as nat, upper),
{
    if v == 0 {
        '0'
    } else if v == 1 {
        '1'
    } else if v == 2 {
        '2'
    } else if v == 3 {
        '3'
    } else if v == 4 {
        '4'
    } else if v == 5 {
        '5'
    } else if v == 6 {
        '6'
    } else if v == 7 {
        '7'
    } else if v == 8 {
        '8'
    } else if v == 9 {
        '9'
    } else if v == 10 {
        if upper {
            'A'
        } else {
            'a'
        }
    } else if v == 11 {
        if upper {
            'B'
        } else {
            'b'
        }
    } else if v == 12 {
        if upper {
            'C'
        } else {
            'c'
        }
    } else if v == 13 {
        if upper {
            'D'
        } else {
            'd'
        }
    } else if v == 14 {
        if upper {
            'E'
        } else {
            'e'
        }
    } else {
        if upper {
            'F'
        } else {
            'f'
        }
    }
}

/// The hex preview of a body.
pub fn bytes_to_hex(bytes: &[u8]) -> (r: String)
    ensures
        r@ == hex_of(bytes@),
{
    let mut out: Vec<char> = Vec::new();
    let mut i: usize = 0;
    while i < bytes.len()
        invariant
            i <= bytes.len(),
            out@ == hex_of(bytes@.take(i as int)),
        decreases bytes.len() - i,
    {
        let b = bytes[i];
        proof {
            let next = bytes@.take(i + 1);
            assert(next.drop_last() =~= bytes@.take(i as int));
            assert(next.last() == b);
            assert(out@.push(hex_digit((b / 16) as nat, false)).push(
                hex_digit((b % 16) as nat, false),
            ) =~= out@ + hex_pair(b, false));
        }
        out.push(hex_char(b / 16, false));
        out.push(hex_char(b % 16, false));
        i += 1;
    }
    assert(bytes@.take(bytes@.len() as int) =~= bytes@);
    string_of(out.as_slice())
}

/// The bytes as a bracketed list of hexadecimal numbers.
pub fn hex_list(bytes: &[u8]) -> (r: String)
    ensures
        r@ == hex_list_of(bytes@),
{
    let mut out: Vec<char> = Vec::new();
    out.push('[');
    let mut i: usize = 0;
    while i < bytes.len()
        invariant
            i <= bytes.len(),
            out@ == seq!['['] + hex_items(bytes@.take(i as int)),
        decreases bytes.len() - i,
    {
        let b = bytes[i];
        let ghost before = out@;
        proof {
            let next = bytes@.take(i + 1);
            assert(next.drop_last() =~= bytes@.take(i as int));
            assert(next.last() == b);
            if i == 0 {
                assert(next[0] == b);
                assert(hex_items(bytes@.take(0)) =~= Seq::<char>::empty());
            }
        }
        if i > 0 {
            out.push(',');
            out.push(' ');
        }
        out.push(hex_char(b / 16, true));
        out.push(hex_char(b % 16, true));
        proof {
            if i == 0 {
                assert(out@ =~= seq!['['] + hex_pair(b, true));
            } else {
                assert(out@ =~= before + seq![',', ' '] + hex_pair(b, true));
                assert(out@ =~= seq!['['] + (hex_items(bytes@.take(i as int)) + seq![',', ' ']
                    + hex_pair(b, true)));
            }
        }
        i += 1;
    }
    assert(bytes@.take(bytes@.len() as int) =~= bytes@);
    out.push(']');
    string_of(out.as_slice())
}

/// A body as it is shown: as its text where its bytes are UTF-8, else in
/// base64.
pub open spec fn shown(data: Seq<u8>) -> (Seq<char>, Seq<char>) {
    if valid_utf8(data) {
        ("utf8"@, decode_utf8(data))
    } else {
        ("base64"@, base64_no_pad_of(data))
    }
}

impl Body {
    /// The body of these bytes as it is shown.
    pub fn bytes(data: &[u8]) -> (b: Body)
        ensures
            (b.encode@, b.value@) == shown(data@),
            b.size == data@.len(),
    {
        let size: u64 = data.len() as u64;
        match string_from_utf8(copy_bytes(data)) {
            Some(text) => Body { encode: String::from_str("utf8"), value: text, size },
            None => Body {
                encode: String::from_str("base64"),
                value: base64_encode(data),
                size,
            },
        }
    }
}

} // verus!
