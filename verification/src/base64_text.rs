//! The base64 encodings that the engine writes: the standard alphabet with
//! padding, and the URL-safe alphabet without it.
use vstd::prelude::*;

verus! {

/// The character of the 6-bit value `n` (below 64): `A`-`Z`, `a`-`z`,
/// `0`-`9`, then `+` and `/` in the standard alphabet, `-` and `_` in the
/// URL-safe one.
pub open spec fn sextet_char(n: int, url_safe: bool) -> char {
    if n < 26 {
        ((65 + n) as u32) as char
    } else if n < 52 {
        ((97 + n - 26) as u32) as char
    } else if n < 62 {
        ((48 + n - 52) as u32) as char
    } else if n == 62 {
        if url_safe {
            '-'
        } else {
            '+'
        }
    } else if url_safe {
        '_'
    } else {
        '/'
    }
}

/// The encoding of `bytes`: each group of three bytes becomes four
/// characters, six bits each, high bits first; a last group of two bytes
/// becomes three characters and of one byte two, followed by `=` padding to
/// four characters when `padded`.
pub open spec fn base64_of(bytes: Seq<u8>, url_safe: bool, padded: bool) -> Seq<char>
    decreases bytes.len(),
{
    if bytes.len() == 0 {
        Seq::empty()
    } else if bytes.len() == 1 {
        let a = bytes[0] as int;
        seq![sextet_char(a / 4, url_safe), sextet_char((a % 4) * 16, url_safe)] + if padded {
            seq!['=', '=']
        } else {
            Seq::empty()
        }
    } else if bytes.len() == 2 {
        let a = bytes[0] as int;
        let b = bytes[1] as int;
        seq![
            sextet_char(a / 4, url_safe),
            sextet_char((a % 4) * 16 + b / 16, url_safe),
            sextet_char((b % 16) * 4, url_safe),
        ] + if padded {
            seq!['=']
        } else {
            Seq::empty()
        }
    } else {
        let a = bytes[0] as int;
        let b = bytes[1] as int;
        let c = bytes[2] as int;
        seq![
            sextet_char(a / 4, url_safe),
            sextet_char((a % 4) * 16 + b / 16, url_safe),
            sextet_char((b % 16) * 4 + c / 64, url_safe),
            sextet_char(c % 64, url_safe),
        ] + base64_of(bytes.skip(3), url_safe, padded)
    }
}

/// The standard base64 encoding with padding, as
/// `base64::engine::general_purpose::STANDARD` writes it.
pub open spec fn base64_standard(bytes: Seq<u8>) -> Seq<char> {
    base64_of(bytes, false, true)
}

/// The URL-safe base64 encoding without padding, as
/// `base64::engine::general_purpose::URL_SAFE_NO_PAD` writes it.
pub open spec fn base64_url(bytes: Seq<u8>) -> Seq<char> {
    base64_of(bytes, true, false)
}

/// A padded encoding takes four characters per started group of three bytes.
pub proof fn lemma_base64_standard_len(bytes: Seq<u8>)
    ensures
        base64_standard(bytes).len() == 4 * ((bytes.len() + 2) / 3),
    decreases bytes.len(),
{
    if bytes.len() >= 3 {
        lemma_base64_standard_len(bytes.skip(3));
    }
}

} // verus!
