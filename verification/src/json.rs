//! Small pieces of JSON text: string literals, as `serde_json` writes them,
//! and decimal integers.
use vstd::prelude::*;

verus! {

/// Calls `serde_json::to_string` on a string slice: the result is the JSON
/// string literal of `s` that `json_string` spells out, quotes included.
/// Writing a string slice cannot fail.
#[verifier::external_body]
pub(crate) fn json_string_literal(s: &str) -> (r: String)
    ensures
        r@ == json_string(s@),
{
    serde_json::to_string(s).unwrap_or_default()
}

/// The decimal digit of `d`.
pub open spec fn digit_char(d: nat) -> char {
    ((d + 48) as u32) as char
}

/// The decimal digits of `n`, most significant first, without leading zeros.
pub open spec fn digits_of(n: nat) -> Seq<char>
    decreases n,
{
    if n < 10 {
        seq![digit_char(n)]
    } else {
        digits_of(n / 10).push(digit_char(n % 10))
    }
}

/// The decimal text of `n`, with a leading `-` when negative.
pub open spec fn decimal(n: int) -> Seq<char> {
    if n < 0 {
        seq!['-'] + digits_of((-n) as nat)
    } else {
        digits_of(n as nat)
    }
}

/// `10` to the power `k`.
pub open spec fn pow10(k: nat) -> nat
    decreases k,
{
    if k == 0 {
        1
    } else {
        10 * pow10((k - 1) as nat)
    }
}

/// A number below `10^k` has at most `k` digits.
pub proof fn lemma_digits_len(n: nat, k: nat)
    requires
        k >= 1,
        n < pow10(k),
    ensures
        digits_of(n).len() <= k,
    decreases n,
{
    if n >= 10 {
        assert(k >= 2) by {
            if k == 1 {
                assert(pow10(1) == 10) by {
                    reveal_with_fuel(pow10, 2);
                }
            }
        }
        let p = pow10((k - 1) as nat);
        assert(pow10(k) == 10 * p);
        assert(n / 10 < p) by (nonlinear_arith)
            requires
                n < 10 * p,
        ;
        lemma_digits_len(n / 10, (k - 1) as nat);
    }
}

/// The decimal text of an `i64` has at most 20 characters.
pub proof fn lemma_decimal_len(n: i64)
    ensures
        decimal(n as int).len() <= 20,
{
    assert(pow10(19) == 10_000_000_000_000_000_000nat) by {
        reveal_with_fuel(pow10, 20);
    }
    if n < 0 {
        lemma_digits_len((-n) as nat, 19);
    } else {
        lemma_digits_len(n as nat, 19);
    }
}

fn digit(d: u64) -> (c: char)
    requires
        d < 10,
    ensures
        c == digit_char(d as nat),
{
    let b: u8 = (d as u8) + 48;
    b as char
}

/// The decimal digits of `n`.
pub fn digits_text(n: u64) -> (r: Vec<char>)
    ensures
        r@ == digits_of(n as nat),
{
    let mut m: u64 = n;
    let mut acc: Vec<char> = Vec::new();
    while m >= 10
        invariant
            digits_of(n as nat) == digits_of(m as nat) + acc@,
        decreases m,
    {
        let c = digit(m % 10);
        let ghost before = acc@;
        acc.insert(0, c);
        proof {
            assert(digits_of(m as nat) == digits_of((m / 10) as nat).push(c));
            assert(digits_of((m / 10) as nat).push(c) + before =~= digits_of((m / 10) as nat) + acc@);
        }
        m = m / 10;
    }
    let c = digit(m);
    acc.insert(0, c);
    proof {
        assert(digits_of(m as nat) == seq![c]);
    }
    acc
}

/// The decimal text of `n`, as `Display` writes an integer.
pub fn decimal_text(n: i64) -> (r: Vec<char>)
    ensures
        r@ == decimal(n as int),
{
    if n < 0 {
        let wide: i128 = n as i128;
        let mag: u64 = (-wide) as u64;
        let d = digits_text(mag);
        let mut r: Vec<char> = Vec::new();
        r.push('-');
        let mut i: usize = 0;
        while i < d.len()
            invariant
                i <= d@.len(),
                r@ == seq!['-'] + d@.take(i as int),
            decreases d@.len() - i,
        {
            r.push(d[i]);
            i = i + 1;
            assert(r@ =~= seq!['-'] + d@.take(i as int));
        }
        assert(d@.take(d@.len() as int) =~= d@);
        r
    } else {
        digits_text(n as u64)
    }
}

/// The lowercase hexadecimal digit of `d`, below 16.
pub open spec fn hex_digit(d: nat) -> char {
    if d < 10 {
        digit_char(d)
    } else {
        ((d + 87) as u32) as char
    }
}

/// How `serde_json` writes the character `c` inside a string literal: the
/// quote and the backslash behind a backslash; backspace, tab, line feed,
/// form feed and carriage return as `\b`, `\t`, `\n`, `\f`, `\r`; any other
/// control character below 0x20 as `\u00` and two lowercase hex digits;
/// every other character as itself.
pub open spec fn json_escape(c: char) -> Seq<char> {
    let n = c as u32;
    if c == '"' {
        seq!['\\', '"']
    } else if c == '\\' {
        seq!['\\', '\\']
    } else if n == 8 {
        seq!['\\', 'b']
    } else if n == 9 {
        seq!['\\', 't']
    } else if n == 10 {
        seq!['\\', 'n']
    } else if n == 12 {
        seq!['\\', 'f']
    } else if n == 13 {
        seq!['\\', 'r']
    } else if n < 32 {
        seq!['\\', 'u', '0', '0', hex_digit((n / 16) as nat), hex_digit((n % 16) as nat)]
    } else {
        seq![c]
    }
}

/// The characters of `s`, each written as `json_escape` says.
pub open spec fn json_escaped(s: Seq<char>) -> Seq<char>
    decreases s.len(),
{
    if s.len() == 0 {
        Seq::empty()
    } else {
        json_escaped(s.drop_last()) + json_escape(s.last())
    }
}

/// The JSON string literal of `s` as `serde_json` writes it: `s` escaped,
/// between double quotes.
pub open spec fn json_string(s: Seq<char>) -> Seq<char> {
    seq!['"'] + json_escaped(s) + seq!['"']
}

/// No character takes more than six characters to write, so a literal is
/// at most six times as long as its text, plus its two quotes.
pub proof fn lemma_json_string_len(s: Seq<char>)
    ensures
        json_string(s).len() <= 6 * s.len() + 2,
    decreases s.len(),
{
    lemma_json_escaped_len(s);
}

proof fn lemma_json_escaped_len(s: Seq<char>)
    ensures
        json_escaped(s).len() <= 6 * s.len(),
    decreases s.len(),
{
    if s.len() > 0 {
        lemma_json_escaped_len(s.drop_last());
    }
}

} // verus!
