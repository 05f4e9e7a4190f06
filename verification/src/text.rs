//! Character-level text utilities: converting between strings and character
//! vectors, rendering and parsing decimal numbers, rendering hexadecimal, and
//! recognising decimal literals.

use vstd::prelude::*;
use vstd::string::*;

verus! {

/// The characters of a string, as a vector.
pub fn to_chars(s: &str) -> (r: Vec<char>)
    ensures
        r@ == s@,
{
    let n = s.unicode_len();
    let mut r: Vec<char> = Vec::new();
    let mut i: usize = 0;
    while i < n
        invariant
            i <= n,
            n == s@.len(),
            r@ == s@.take(i as int),
        decreases n - i,
    {
        r.push(s.get_char(i));
        i += 1;
        proof {
            assert(r@ =~= s@.take(i as int));
        }
    }
    proof {
        assert(r@ =~= s@);
    }
    r
}

/// A string holding the given range of a character vector.
pub fn string_range(v: &Vec<char>, from: usize, to: usize) -> (r: String)
    requires
        from <= to <= v@.len(),
    ensures
        r@ == v@.subrange(from as int, to as int),
{
    let mut r = String::new();
    let mut i: usize = from;
    while i < to
        invariant
            from <= i <= to <= v@.len(),
            r@ == v@.subrange(from as int, i as int),
        decreases to - i,
    {
        r.push(v[i]);
        i += 1;
        proof {
            assert(r@ =~= v@.subrange(from as int, i as int));
        }
    }
    r
}

/// Whether a character is a decimal digit.
pub open spec fn is_dec_digit(c: char) -> bool {
    48 <= c as u32 <= 57
}

/// The digit character for a value below ten.
pub open spec fn digit_char(d: int) -> char
    recommends
        0 <= d < 10,
{
    ((48 + d) as u8) as char
}

/// The decimal rendering of a natural number, most significant digit first.
pub open spec fn dec_str(n: nat) -> Seq<char>
    decreases n,
{
    if n < 10 {
        seq![digit_char(n as int)]
    } else {
        dec_str(n / 10).push(digit_char((n % 10) as int))
    }
}

/// The decimal rendering of an integer: a minus sign before the magnitude
/// where it is negative.
pub open spec fn dec_str_int(n: int) -> Seq<char> {
    if n >= 0 {
        dec_str(n as nat)
    } else {
        seq!['-'] + dec_str((-n) as nat)
    }
}

/// Renders a number in decimal.
pub fn u64_to_dec(n: u64) -> (r: String)
    ensures
        r@ == dec_str(n as nat),
    decreases n,
{
    if n < 10 {
        let mut r = String::new();
        r.push((48 + n as u8) as char);
        proof {
            assert(r@ =~= dec_str(n as nat));
        }
        r
    } else {
        let mut r = u64_to_dec(n / 10);
        r.push((48 + (n % 10) as u8) as char);
        r
    }
}

/// Renders a signed number in decimal.
pub fn i64_to_dec(n: i64) -> (r: String)
    ensures
        r@ == dec_str_int(n as int),
{
    if n >= 0 {
        u64_to_dec(n as u64)
    } else {
        let m: u64 = ((-(n as i128)) as u64);
        let mut r = String::new();
        r.push('-');
        let tail = u64_to_dec(m);
        r.append(tail.as_str());
        proof {
            assert(r@ =~= dec_str_int(n as int));
        }
        r
    }
}

/// The value of a sequence of decimal digit characters.
pub open spec fn dec_val(s: Seq<char>) -> nat
    decreases s.len(),
{
    if s.len() == 0 {
        0
    } else {
        (dec_val(s.drop_last()) * 10 + (s.last() as u32 - 48)) as nat
    }
}

/// Whether every character in the sequence is a decimal digit.
pub open spec fn all_digits(s: Seq<char>) -> bool {
    forall|i: int| 0 <= i < s.len() ==> is_dec_digit(#[trigger] s[i])
}

proof fn lemma_dec_val_monotone(s: Seq<char>, i: int)
    requires
        0 <= i <= s.len(),
        all_digits(s),
    ensures
        dec_val(s) >= dec_val(s.take(i)),
    decreases s.len() - i,
{
    if i < s.len() {
        assert(s.take(i + 1).drop_last() =~= s.take(i));
        assert(s.take(i + 1).last() == s[i]);
        lemma_dec_val_monotone(s, i + 1);
    } else {
        assert(s.take(i) =~= s);
    }
}

/// Parses the given range of a character vector as an unsigned decimal
/// number. Returns the value exactly when the range is nonempty, all digits,
/// and the value fits in a u64.
pub fn parse_u64_digits(v: &Vec<char>, from: usize, to: usize) -> (r: Option<u64>)
    requires
        from <= to <= v@.len(),
    ensures
        r matches Some(x) ==> {
            let s = v@.subrange(from as int, to as int);
            &&& s.len() > 0
            &&& all_digits(s)
            &&& x == dec_val(s)
        },
        r is None ==> {
            let s = v@.subrange(from as int, to as int);
            ||| s.len() == 0
            ||| !all_digits(s)
            ||| dec_val(s) > u64::MAX
        },
{
    let ghost s = v@.subrange(from as int, to as int);
    if from == to {
        return None;
    }
    let mut acc: u64 = 0;
    let mut i: usize = from;
    while i < to
        invariant
            from <= i <= to <= v@.len(),
            s == v@.subrange(from as int, to as int),
            all_digits(s.take(i - from)),
            acc == dec_val(s.take(i - from)),
        decreases to - i,
    {
        let c = v[i];
        let cu: u32 = c as u32;
        proof {
            assert(s.take(i + 1 - from).drop_last() =~= s.take(i - from));
            assert(s.take(i + 1 - from).last() == s[i - from]);
            assert(s[i - from] == v@[i as int]);
        }
        if cu < 48 || cu > 57 {
            proof {
                assert(!is_dec_digit(s[i - from]));
            }
            return None;
        }
        let d: u64 = (cu - 48) as u64;
        if acc > (u64::MAX - d) / 10 {
            proof {
                assert(dec_val(s.take(i + 1 - from)) == acc * 10 + d);
                assert(acc * 10 + d > u64::MAX);
                if all_digits(s) {
                    lemma_dec_val_monotone(s, i + 1 - from);
                }
            }
            return None;
        }
        acc = acc * 10 + d;
        i += 1;
    }
    proof {
        assert(s.take(to - from) =~= s);
    }
    Some(acc)
}

/// The hexadecimal digit character for a value below sixteen.
pub open spec fn hex_digit_char(d: int) -> char
    recommends
        0 <= d < 16,
{
    if d < 10 {
        ((48 + d) as u8) as char
    } else {
        ((87 + d) as u8) as char
    }
}

/// The lower-case hexadecimal rendering of a natural number.
pub open spec fn hex_str(n: nat) -> Seq<char>
    decreases n,
{
    if n < 16 {
        seq![hex_digit_char(n as int)]
    } else {
        hex_str(n / 16).push(hex_digit_char((n % 16) as int))
    }
}

fn hex_digit(d: u64) -> (c: char)
    requires
        d < 16,
    ensures
        c == hex_digit_char(d as int),
{
    if d < 10 {
        (48 + d as u8) as char
    } else {
        (87 + d as u8) as char
    }
}

/// Renders a number in lower-case hexadecimal.
pub fn u64_to_hex(n: u64) -> (r: String)
    ensures
        r@ == hex_str(n as nat),
    decreases n,
{
    if n < 16 {
        let mut r = String::new();
        r.push(hex_digit(n));
        proof {
            assert(r@ =~= hex_str(n as nat));
        }
        r
    } else {
        let mut r = u64_to_hex(n / 16);
        r.push(hex_digit(n % 16));
        r
    }
}

/// Whether an unsigned character sequence is digits with at most one
/// interior decimal point.
pub open spec fn is_decimal_body(b: Seq<char>) -> bool {
    &&& b.len() > 0
    &&& (forall|i: int| 0 <= i < b.len() ==> is_dec_digit(#[trigger] b[i]) || b[i] == '.')
    &&& dot_count(b) <= 1
    &&& b[0] != '.'
    &&& b[b.len() - 1] != '.'
}

/// Whether a character sequence is a plain decimal literal: an optional
/// leading minus sign, then digits with at most one interior decimal point.
pub open spec fn is_decimal(s: Seq<char>) -> bool {
    if s.len() > 0 && s[0] == '-' {
        is_decimal_body(s.skip(1))
    } else {
        is_decimal_body(s)
    }
}

/// How many decimal points a character sequence holds.
pub open spec fn dot_count(s: Seq<char>) -> nat
    decreases s.len(),
{
    if s.len() == 0 {
        0
    } else {
        dot_count(s.drop_last()) + if s.last() == '.' {
            1nat
        } else {
            0nat
        }
    }
}

/// Decides whether a string is a plain decimal literal.
pub fn is_decimal_str(s: &str) -> (r: bool)
    ensures
        r == is_decimal(s@),
{
    let v = to_chars(s);
    let n = v.len();
    let start: usize = if n > 0 && v[0] == '-' {
        1
    } else {
        0
    };
    let ghost b = if s@.len() > 0 && s@[0] == '-' {
        s@.skip(1)
    } else {
        s@
    };
    proof {
        assert(b =~= v@.subrange(start as int, n as int));
    }
    if n == start {
        proof {
            assert(!is_decimal_body(b));
            assert(is_decimal(s@) == is_decimal_body(b));
        }
        return false;
    }
    let mut dots: u64 = 0;
    let mut ok = true;
    let mut i: usize = start;
    while i < n
        invariant
            start <= i <= n == v@.len(),
            b == v@.subrange(start as int, n as int),
            b.len() == n - start,
            dots == dot_count(b.take(i - start)),
            dots <= i,
            ok ==> (forall|j: int|
                0 <= j < i - start ==> is_dec_digit(#[trigger] b[j]) || b[j] == '.'),
            !ok ==> !is_decimal_body(b),
        decreases n - i,
    {
        let c = v[i];
        proof {
            assert(b[i - start] == v@[i as int]);
            assert(b.take(i + 1 - start).drop_last() =~= b.take(i - start));
            assert(b.take(i + 1 - start).last() == b[i - start]);
        }
        if c == '.' {
            dots += 1;
        } else {
            let cu: u32 = c as u32;
            if cu < 48 || cu > 57 {
                proof {
                    assert(!(is_dec_digit(b[i - start]) || b[i - start] == '.'));
                }
                ok = false;
            }
        }
        i += 1;
    }
    proof {
        assert(b.take(n - start) =~= b);
        assert(b[0] == v@[start as int]);
        assert(b[b.len() - 1] == v@[n - 1]);
    }
    let res = ok && dots <= 1 && v[start] != '.' && v[n - 1] != '.';
    proof {
        assert(res == is_decimal_body(b));
        assert(is_decimal(s@) == is_decimal_body(b));
    }
    res
}

} // verus!
