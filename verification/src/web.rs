use vstd::prelude::*;
use vstd::string::StringSliceAdditionalSpecFns;
use vstd::utf8::encode_utf8;

use crate::text::{chars_of, string_of, Chars};

verus! {

/// Bytes that stand for themselves in a query string: ASCII letters, digits and `-_.~`.
pub open spec fn is_unreserved(b: u8) -> bool {
    ||| 0x41 <= b <= 0x5A
    ||| 0x61 <= b <= 0x7A
    ||| 0x30 <= b <= 0x39
    ||| b == 0x2D
    ||| b == 0x5F
    ||| b == 0x2E
    ||| b == 0x7E
}

/// The uppercase hexadecimal digit of a number below 16.
pub open spec fn hex_digit(n: u8) -> char {
    if n < 10 {
        ((0x30 + n) as u8) as char
    } else {
        ((0x41 + n - 10) as u8) as char
    }
}

/// How one byte of the query is written in the URL: as itself when unreserved, a
/// space as `+`, any other byte as `%` and two uppercase hex digits.
pub open spec fn encode_byte(b: u8) -> Chars {
    if is_unreserved(b) {
        seq![b as char]
    } else if b == 0x20 {
        seq!['+']
    } else {
        seq!['%', hex_digit(b / 16), hex_digit(b % 16)]
    }
}

/// The form encoding of a byte sequence.
pub open spec fn form_encode(bytes: Seq<u8>) -> Chars
    decreases bytes.len(),
{
    if bytes.len() == 0 {
        Seq::empty()
    } else {
        form_encode(bytes.drop_last()) + encode_byte(bytes.last())
    }
}

/// The Google search URL for a query: the form encoding of its UTF-8 bytes after
/// `https://www.google.com/search?q=`.
pub open spec fn search_url(query: Chars) -> Chars {
    "https://www.google.com/search?q="@ + form_encode(encode_utf8(query))
}

fn hex(n: u8) -> (r: char)
    requires
        n < 16,
    ensures
        r == hex_digit(n),
{
    if n < 10 {
        (0x30 + n) as char
    } else {
        (0x41 + n - 10) as char
    }
}

/// Builds the Google search URL for a query.
pub fn web_search_url(query: &str) -> (r: String)
    ensures
        r@ == search_url(query@),
{
    let bytes = query.as_bytes();
    let mut out = chars_of("https://www.google.com/search?q=");
    let ghost prefix = out@;
    let mut i: usize = 0;
    while i < bytes.len()
        invariant
            i <= bytes@.len(),
            bytes@ == encode_utf8(query@),
            out@ == prefix + form_encode(bytes@.take(i as int)),
        decreases bytes@.len() - i,
    {
        let b = bytes[i];
        proof {
            assert(bytes@.take(i + 1).drop_last() =~= bytes@.take(i as int));
            assert(bytes@.take(i + 1).last() == b);
        }
        let ghost before = out@;
        if (0x41 <= b && b <= 0x5A) || (0x61 <= b && b <= 0x7A) || (0x30 <= b && b <= 0x39) || b
            == 0x2D || b == 0x5F || b == 0x2E || b == 0x7E {
            out.push(b as char);
            proof {
                assert(out@ =~= before + encode_byte(b));
            }
        } else if b == 0x20 {
            out.push('+');
            proof {
                assert(out@ =~= before + encode_byte(b));
            }
        } else {
            out.push('%');
            out.push(hex(b / 16));
            out.push(hex(b % 16));
            proof {
                assert(out@ =~= before + encode_byte(b));
            }
        }
        proof {
            assert(out@ =~= prefix + form_encode(bytes@.take(i + 1)));
        }
        i += 1;
    }
    proof {
        assert(bytes@.take(bytes@.len() as int) =~= bytes@);
    }
    string_of(&out)
}

} // verus!
