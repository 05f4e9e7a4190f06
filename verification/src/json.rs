//! Text-level JSON helpers shared by the collection stores: rendering quoted
//! strings with escapes, and parsing tokens out of a character vector.

use vstd::prelude::*;
use vstd::string::*;
use crate::text::{hex_digit_char, to_chars, string_range};

verus! {

/// The escape of one character inside a JSON string literal.
pub open spec fn esc_char(c: char) -> Seq<char> {
    if c == '"' {
        seq!['\\', '"']
    } else if c == '\\' {
        seq!['\\', '\\']
    } else if c == '\n' {
        seq!['\\', 'n']
    } else if c == '\r' {
        seq!['\\', 'r']
    } else if c == '\t' {
        seq!['\\', 't']
    } else if (c as u32) < 32 {
        seq!['\\', 'u', '0', '0', hex_digit_char(c as u32 as int / 16), hex_digit_char(
            c as u32 as int % 16,
        )]
    } else {
        seq![c]
    }
}

/// The escaped form of a whole string.
pub open spec fn esc(s: Seq<char>) -> Seq<char>
    decreases s.len(),
{
    if s.len() == 0 {
        Seq::empty()
    } else {
        esc(s.drop_last()) + esc_char(s.last())
    }
}

/// A JSON string literal: quotes around the escaped characters.
pub open spec fn jstr(s: Seq<char>) -> Seq<char> {
    seq!['"'] + esc(s) + seq!['"']
}

/// Appends the JSON string literal for `s` to `out`.
pub fn push_json_string(out: &mut String, s: &str)
    ensures
        final(out)@ == old(out)@ + jstr(s@),
{
    out.push('"');
    let n = s.unicode_len();
    let mut i: usize = 0;
    while i < n
        invariant
            i <= n,
            n == s@.len(),
            out@ == old(out)@ + seq!['"'] + esc(s@.take(i as int)),
        decreases n - i,
    {
        let c = s.get_char(i);
        proof {
            assert(s@.take(i + 1).drop_last() =~= s@.take(i as int));
            assert(s@.take(i + 1).last() == s@[i as int]);
        }
        if c == '"' {
            out.push('\\');
            out.push('"');
        } else if c == '\\' {
            out.push('\\');
            out.push('\\');
        } else if c == '\n' {
            out.push('\\');
            out.push('n');
        } else if c == '\r' {
            out.push('\\');
            out.push('r');
        } else if c == '\t' {
            out.push('\\');
            out.push('t');
        } else {
            let cu: u32 = c as u32;
            if cu < 32 {
                out.push('\\');
                out.push('u');
                out.push('0');
                out.push('0');
                let hi: u8 = (cu / 16) as u8;
                let lo: u8 = (cu % 16) as u8;
                out.push(if hi < 10 {
                    (48 + hi) as char
                } else {
                    (87 + hi) as char
                });
                out.push(if lo < 10 {
                    (48 + lo) as char
                } else {
                    (87 + lo) as char
                });
            } else {
                out.push(c);
            }
        }
        i += 1;
        proof {
            assert(out@ =~= old(out)@ + seq!['"'] + esc(s@.take(i as int)));
        }
    }
    proof {
        assert(s@.take(n as int) =~= s@);
    }
    out.push('"');
    proof {
        assert(out@ =~= old(out)@ + jstr(s@));
    }
}

/// Whether a character is JSON whitespace.
pub open spec fn is_ws(c: char) -> bool {
    c == ' ' || c == '\n' || c == '\r' || c == '\t'
}

/// The first position at or after `i` holding a non-whitespace character.
pub fn skip_ws(v: &Vec<char>, i: usize) -> (r: usize)
    requires
        i <= v@.len(),
    ensures
        i <= r <= v@.len(),
        r < v@.len() ==> !is_ws(v@[r as int]),
{
    let mut j = i;
    while j < v.len()
        invariant
            i <= j <= v@.len(),
        decreases v@.len() - j,
    {
        let c = v[j];
        if c == ' ' || c == '\n' || c == '\r' || c == '\t' {
            j += 1;
        } else {
            return j;
        }
    }
    j
}

/// Consumes one expected character, after any whitespace.
pub fn expect_char(v: &Vec<char>, i: usize, c: char) -> (r: Option<usize>)
    requires
        i <= v@.len(),
    ensures
        r matches Some(j) ==> i < j <= v@.len(),
{
    let j = skip_ws(v, i);
    if j < v.len() && v[j] == c {
        Some(j + 1)
    } else {
        None
    }
}

/// Consumes an expected literal word (no whitespace inside), after any
/// whitespace.
pub fn expect_lit(v: &Vec<char>, i: usize, lit: &str) -> (r: Option<usize>)
    requires
        i <= v@.len(),
        lit@.len() > 0,
    ensures
        r matches Some(j) ==> i < j <= v@.len(),
{
    let l = to_chars(lit);
    let j = skip_ws(v, i);
    if v.len() - j < l.len() {
        return None;
    }
    let mut k: usize = 0;
    while k < l.len()
        invariant
            k <= l@.len(),
            i <= j,
            j + l@.len() <= v@.len(),
            v@.len() <= usize::MAX,
            l@.len() > 0,
        decreases l@.len() - k,
    {
        if v[j + k] != l[k] {
            return None;
        }
        k += 1;
    }
    Some(j + l.len())
}

/// Parses a JSON string literal, after any whitespace. Accepts the escapes
/// this module renders: `\"`, `\\`, `\/`, `\n`, `\r`, `\t`, and `\u00XX`.
pub fn parse_string(v: &Vec<char>, i: usize) -> (r: Option<(String, usize)>)
    requires
        i <= v@.len(),
    ensures
        r matches Some(p) ==> i < p.1 <= v@.len(),
{
    let j = skip_ws(v, i);
    if j >= v.len() || v[j] != '"' {
        return None;
    }
    let mut out = String::new();
    let mut k = j + 1;
    while k < v.len()
        invariant
            i < k <= v@.len(),
            v@.len() <= usize::MAX,
        decreases v@.len() - k,
    {
        let c = v[k];
        if c == '"' {
            return Some((out, k + 1));
        } else if c == '\\' {
            if v.len() - k < 2 {
                return None;
            }
            let e = v[k + 1];
            if e == '"' || e == '\\' || e == '/' {
                out.push(e);
                k += 2;
            } else if e == 'n' {
                out.push('\n');
                k += 2;
            } else if e == 'r' {
                out.push('\r');
                k += 2;
            } else if e == 't' {
                out.push('\t');
                k += 2;
            } else if e == 'u' {
                if v.len() - k < 6 {
                    return None;
                }
                if v[k + 2] != '0' || v[k + 3] != '0' {
                    return None;
                }
                let hi = hex_val(v[k + 4]);
                let lo = hex_val(v[k + 5]);
                match (hi, lo) {
                    (Some(h), Some(l)) => {
                        out.push(((h * 16 + l) as u8) as char);
                        k += 6;
                    },
                    _ => {
                        return None;
                    },
                }
            } else {
                return None;
            }
        } else {
            out.push(c);
            k += 1;
        }
    }
    None
}

fn hex_val(c: char) -> (r: Option<u32>)
    ensures
        r matches Some(x) ==> x < 16,
{
    let cu: u32 = c as u32;
    if 48 <= cu && cu <= 57 {
        Some(cu - 48)
    } else if 97 <= cu && cu <= 102 {
        Some(cu - 87)
    } else if 65 <= cu && cu <= 70 {
        Some(cu - 55)
    } else {
        None
    }
}

/// Parses a JSON number token (sign, digits, optional fraction and exponent)
/// into its raw text, after any whitespace.
pub fn parse_number_token(v: &Vec<char>, i: usize) -> (r: Option<(String, usize)>)
    requires
        i <= v@.len(),
    ensures
        r matches Some(p) ==> i < p.1 <= v@.len(),
{
    let j = skip_ws(v, i);
    let mut k = j;
    if k < v.len() && v[k] == '-' {
        k += 1;
    }
    let digits_start = k;
    while k < v.len()
        invariant
            i <= j <= digits_start <= k <= v@.len(),
            v@.len() <= usize::MAX,
        decreases v@.len() - k,
    {
        let c = v[k];
        let cu: u32 = c as u32;
        if (48 <= cu && cu <= 57) || c == '.' || c == 'e' || c == 'E' || c == '+' || c == '-' {
            k += 1;
        } else {
            break;
        }
    }
    if k == digits_start {
        return None;
    }
    Some((string_range(v, j, k), k))
}

/// Consumes an object member key and its colon: whitespace, the quoted key,
/// whitespace, `:`. The key must match exactly.
pub fn expect_key(v: &Vec<char>, i: usize, key: &str) -> (r: Option<usize>)
    requires
        i <= v@.len(),
    ensures
        r matches Some(j) ==> i < j <= v@.len(),
{
    match parse_string(v, i) {
        Some((k, j)) => {
            if str_eq(k.as_str(), key) {
                expect_char(v, j, ':')
            } else {
                None
            }
        },
        None => None,
    }
}

/// Parses a JSON integer (an optional sign and digits, no fraction), after
/// any whitespace, into a signed 64-bit value.
pub fn parse_i64_at(v: &Vec<char>, i: usize) -> (r: Option<(i64, usize)>)
    requires
        i <= v@.len(),
    ensures
        r matches Some(p) ==> i < p.1 <= v@.len(),
{
    let j = skip_ws(v, i);
    let mut k = j;
    let neg = k < v.len() && v[k] == '-';
    if neg {
        k += 1;
    }
    let digits_start = k;
    while k < v.len()
        invariant
            i <= j <= digits_start <= k <= v@.len(),
            v@.len() <= usize::MAX,
        decreases v@.len() - k,
    {
        let c = v[k];
        let cu: u32 = c as u32;
        if 48 <= cu && cu <= 57 {
            k += 1;
        } else {
            break;
        }
    }
    if k == digits_start {
        return None;
    }
    match crate::text::parse_u64_digits(v, digits_start, k) {
        Some(m) => {
            if neg {
                if m > 0x8000_0000_0000_0000u64 {
                    None
                } else {
                    Some(((-(m as i128)) as i64, k))
                }
            } else {
                if m > i64::MAX as u64 {
                    None
                } else {
                    Some((m as i64, k))
                }
            }
        },
        None => None,
    }
}

/// Parses a JSON boolean, after any whitespace.
pub fn parse_bool_at(v: &Vec<char>, i: usize) -> (r: Option<(bool, usize)>)
    requires
        i <= v@.len(),
    ensures
        r matches Some(p) ==> i < p.1 <= v@.len(),
{
    proof {
        reveal_strlit("true");
        reveal_strlit("false");
    }
    match expect_lit(v, i, "true") {
        Some(j) => Some((true, j)),
        None => match expect_lit(v, i, "false") {
            Some(j) => Some((false, j)),
            None => None,
        },
    }
}

/// Whether two strings hold the same characters.
pub fn str_eq(a: &str, b: &str) -> (r: bool)
    ensures
        r == (a@ == b@),
{
    let n = a.unicode_len();
    if n != b.unicode_len() {
        proof {
            assert(a@ != b@);
        }
        return false;
    }
    let mut i: usize = 0;
    while i < n
        invariant
            i <= n,
            n == a@.len() == b@.len(),
            a@.take(i as int) == b@.take(i as int),
        decreases n - i,
    {
        if a.get_char(i) != b.get_char(i) {
            proof {
                assert(a@[i as int] != b@[i as int]);
            }
            return false;
        }
        i += 1;
        proof {
            assert(a@.take(i as int) =~= b@.take(i as int));
        }
    }
    proof {
        assert(a@.take(n as int) =~= a@);
        assert(b@.take(n as int) =~= b@);
    }
    true
}

} // verus!
