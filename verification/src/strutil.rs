//! Small verified string helpers: equality, ordering-free comparisons,
//! character appends and decimal rendering used across the engine.

use vstd::prelude::*;
use vstd::string::StrSliceExecFns;
use vstd::string::StringExecFns;

verus! {

/// Relies on `String::push`: appends exactly one character.
#[verifier::external_body]
pub fn push_char(s: &mut String, c: char)
    ensures
        final(s)@ == old(s)@.push(c),
{
    s.push(c);
}

/// Whether two string slices hold the same characters.
pub fn str_eq(a: &str, b: &str) -> (r: bool)
    ensures
        r == (a@ == b@),
{
    let sa = a.to_owned();
    let sb = b.to_owned();
    sa == sb
}

/// Appends a string slice, leaving the result's view the concatenation.
pub fn push_str(s: &mut String, t: &str)
    ensures
        final(s)@ == old(s)@ + t@,
{
    s.append(t);
}

/// A fresh `String` holding the same characters as the slice.
pub fn to_string(s: &str) -> (r: String)
    ensures
        r@ == s@,
{
    s.to_owned()
}

/// The digit character for one value below ten.
pub open spec fn spec_digit_char(d: int) -> char {
    if d == 0 { '0' }
    else if d == 1 { '1' }
    else if d == 2 { '2' }
    else if d == 3 { '3' }
    else if d == 4 { '4' }
    else if d == 5 { '5' }
    else if d == 6 { '6' }
    else if d == 7 { '7' }
    else if d == 8 { '8' }
    else { '9' }
}

/// The decimal digit sequence of a natural number, most significant first.
pub open spec fn spec_digits(n: nat) -> Seq<char>
    decreases n,
{
    if n < 10 {
        seq![spec_digit_char(n as int)]
    } else {
        spec_digits(n / 10) + seq![spec_digit_char((n % 10) as int)]
    }
}

fn digit_char(d: u64) -> (c: char)
    requires
        d < 10,
    ensures
        c == spec_digit_char(d as int),
{
    if d == 0 { '0' }
    else if d == 1 { '1' }
    else if d == 2 { '2' }
    else if d == 3 { '3' }
    else if d == 4 { '4' }
    else if d == 5 { '5' }
    else if d == 6 { '6' }
    else if d == 7 { '7' }
    else if d == 8 { '8' }
    else { '9' }
}

/// Appends the decimal digits of `n` to `out`.
pub fn push_u64(out: &mut String, n: u64)
    ensures
        final(out)@ == old(out)@ + spec_digits(n as nat),
    decreases n,
{
    if n < 10 {
        let c = digit_char(n);
        push_char(out, c);
        proof {
            assert(out@ =~= old(out)@ + spec_digits(n as nat));
        }
    } else {
        push_u64(out, n / 10);
        let c = digit_char(n % 10);
        push_char(out, c);
        proof {
            assert(out@ =~= old(out)@ + spec_digits(n as nat));
        }
    }
}

/// The decimal rendering of a natural number as a `String`.
pub fn u64_to_string(n: u64) -> (r: String)
    ensures
        r@ == spec_digits(n as nat),
{
    let mut out = String::new();
    push_u64(&mut out, n);
    proof {
        assert(out@ =~= spec_digits(n as nat));
    }
    out
}

/// The ASCII-lowercase of one character.
pub open spec fn ascii_lower_char(c: char) -> char {
    if 'A' <= c <= 'Z' {
        ((c as u8) + 32) as char
    } else {
        c
    }
}

/// The ASCII-lowercase of a character sequence.
pub open spec fn ascii_lower(s: Seq<char>) -> Seq<char> {
    Seq::new(s.len(), |i: int| ascii_lower_char(s[i]))
}

/// Whether two strings are equal up to ASCII case.
pub fn eq_ignore_ascii_case(a: &str, b: &str) -> (r: bool)
    ensures
        r == (ascii_lower(a@) == ascii_lower(b@)),
{
    let an = a.unicode_len();
    let bn = b.unicode_len();
    if an != bn {
        proof {
            assert(ascii_lower(a@).len() != ascii_lower(b@).len());
        }
        return false;
    }
    let mut i: usize = 0;
    while i < an
        invariant
            i <= an,
            an == a@.len(),
            an == b@.len(),
            forall|j: int| 0 <= j < i ==> ascii_lower(a@)[j] == ascii_lower(b@)[j],
        decreases an - i,
    {
        let ca = a.get_char(i);
        let cb = b.get_char(i);
        let la = if 'A' <= ca && ca <= 'Z' {
            (((ca as u32) + 32) as u8) as char
        } else {
            ca
        };
        let lb = if 'A' <= cb && cb <= 'Z' {
            (((cb as u32) + 32) as u8) as char
        } else {
            cb
        };
        if la != lb {
            proof {
                assert(ascii_lower(a@)[i as int] != ascii_lower(b@)[i as int]);
            }
            return false;
        }
        i += 1;
    }
    proof {
        assert(ascii_lower(a@) =~= ascii_lower(b@));
    }
    true
}

/// The first position at or after `from` that holds no decimal digit.
pub open spec fn digit_run_end(s: Seq<char>, from: int) -> int
    decreases s.len() - from,
        when 0 <= from <= s.len()
{
    if from >= s.len() || !('0' <= s[from] <= '9') {
        from
    } else {
        digit_run_end(s, from + 1)
    }
}

/// The run end lies between `from` and the length, with digits before
/// it and none at it.
pub proof fn lemma_digit_run_end(s: Seq<char>, from: int)
    requires
        0 <= from <= s.len(),
    ensures
        from <= digit_run_end(s, from) <= s.len(),
        forall|j: int| from <= j < digit_run_end(s, from) ==> '0' <= #[trigger] s[j] <= '9',
        digit_run_end(s, from) < s.len() ==> !('0' <= s[digit_run_end(s, from)] <= '9'),
    decreases s.len() - from,
{
    if from < s.len() && '0' <= s[from] <= '9' {
        lemma_digit_run_end(s, from + 1);
    }
}

/// Finds the end of the digit run starting at `from`.
pub fn digit_run_end_exec(s: &str, from: usize) -> (r: usize)
    requires
        from <= s@.len(),
    ensures
        r == digit_run_end(s@, from as int),
        from <= r <= s@.len(),
{
    let n = s.unicode_len();
    let mut i: usize = from;
    while i < n
        invariant
            from <= i <= n,
            n == s@.len(),
            digit_run_end(s@, from as int) == digit_run_end(s@, i as int),
            forall|j: int| from <= j < i ==> '0' <= #[trigger] s@[j] <= '9',
        decreases n - i,
    {
        let c = s.get_char(i);
        if c < '0' || c > '9' {
            return i;
        }
        i += 1;
    }
    n
}

/// Whether the string is a decimal number literal: an optional sign,
/// integer digits, an optional fraction with digits, and an optional
/// exponent with digits.  The shape alone is checked; magnitude is not
/// bounded.
pub open spec fn is_number_literal(s: Seq<char>) -> bool {
    let start: int = if s.len() > 0 && (s[0] == '-' || s[0] == '+') {
        1
    } else {
        0
    };
    let ie = digit_run_end(s, start);
    ie > start && {
        let after = if ie < s.len() && s[ie] == '.' {
            digit_run_end(s, ie + 1)
        } else {
            ie
        };
        (if ie < s.len() && s[ie] == '.' {
            after > ie + 1
        } else {
            true
        }) && {
            if after == s.len() {
                true
            } else if s[after] == 'e' || s[after] == 'E' {
                let es: int = if after + 1 < s.len() && (s[after + 1] == '+' || s[after + 1]
                    == '-') {
                    after + 2
                } else {
                    after + 1
                };
                es <= s.len() && digit_run_end(s, es) == s.len() && s.len() > es
            } else {
                false
            }
        }
    }
}

/// Checks the decimal-literal shape of a string.
pub fn is_number_literal_exec(s: &str) -> (r: bool)
    ensures
        r == is_number_literal(s@),
{
    let n = s.unicode_len();
    let start: usize = if n > 0 && (s.get_char(0) == '-' || s.get_char(0) == '+') {
        1
    } else {
        0
    };
    if start > n {
        proof {
            assert(false);
        }
        return false;
    }
    let ie = digit_run_end_exec(s, start);
    if ie <= start {
        return false;
    }
    let after: usize = if ie < n && s.get_char(ie) == '.' {
        let fe = digit_run_end_exec(s, ie + 1);
        if fe <= ie + 1 {
            return false;
        }
        fe
    } else {
        ie
    };
    if after == n {
        return true;
    }
    let c = s.get_char(after);
    if c != 'e' && c != 'E' {
        return false;
    }
    let es: usize = if after + 1 < n && (s.get_char(after + 1) == '+' || s.get_char(after + 1)
        == '-') {
        after + 2
    } else {
        after + 1
    };
    if es > n {
        return false;
    }
    let ee = digit_run_end_exec(s, es);
    ee == n && n > es
}

/// The integer denoted by a string: an optional sign and digits; `None`
/// for anything else.
pub open spec fn int_literal_value(s: Seq<char>) -> Option<int> {
    if s.len() == 0 {
        None
    } else {
        let neg = s[0] == '-';
        let body = if s[0] == '-' || s[0] == '+' {
            s.skip(1)
        } else {
            s
        };
        if body.len() > 0 && digit_run_end(body, 0) == body.len() {
            Some(
                if neg {
                    -crate::pointer::seg_digits_value(body)
                } else {
                    crate::pointer::seg_digits_value(body)
                },
            )
        } else {
            None
        }
    }
}

/// The string's value as an `i64`, when it is an integer literal in
/// range.
pub open spec fn parse_i64_spec(s: Seq<char>) -> Option<int> {
    match int_literal_value(s) {
        Some(v) => if i64::MIN <= v <= i64::MAX {
            Some(v)
        } else {
            None
        },
        None => None,
    }
}

/// Parses an integer literal, rejecting anything malformed or out of
/// the 64-bit range.
pub fn parse_i64(s: &str) -> (r: Option<i64>)
    ensures
        match r {
            Some(v) => parse_i64_spec(s@) == Some(v as int),
            None => parse_i64_spec(s@) is None,
        },
{
    let n = s.unicode_len();
    if n == 0 {
        return None;
    }
    let first = s.get_char(0);
    let neg = first == '-';
    let start: usize = if first == '-' || first == '+' {
        1
    } else {
        0
    };
    let ghost body = if first == '-' || first == '+' {
        s@.skip(1)
    } else {
        s@
    };
    if start >= n {
        proof {
            assert(body.len() == 0);
        }
        return None;
    }
    let bound: u64 = if neg {
        9223372036854775808
    } else {
        9223372036854775807
    };
    let mut val: u64 = 0;
    let mut i: usize = start;
    proof {
        assert(body.len() == n - start);
        assert(forall|j: int| 0 <= j < body.len() ==> body[j] == s@[j + start]);
        assert(body.take(0) =~= Seq::<char>::empty());
    }
    while i < n
        invariant
            start <= i <= n,
            n == s@.len(),
            n > 0,
            start == (if s@[0] == '-' || s@[0] == '+' { 1int } else { 0int }),
            neg == (s@[0] == '-'),
            body == (if s@[0] == '-' || s@[0] == '+' { s@.skip(1) } else { s@ }),
            body.len() == n - start,
            forall|j: int| 0 <= j < body.len() ==> #[trigger] body[j] == s@[j + start],
            forall|j: int| 0 <= j < i - start ==> '0' <= #[trigger] body[j] <= '9',
            val == crate::pointer::seg_digits_value(body.take(i - start)),
            val <= bound,
            bound == if neg {
                9223372036854775808u64
            } else {
                9223372036854775807u64
            },
        decreases n - i,
    {
        let c = s.get_char(i);
        if c < '0' || c > '9' {
            proof {
                assert(body[i - start] == c);
                lemma_digit_run_end(body, 0);
                if digit_run_end(body, 0) == body.len() {
                    assert('0' <= body[i - start] <= '9');
                }
            }
            return None;
        }
        let d = (c as u32 - '0' as u32) as u64;
        proof {
            assert(body.take(i - start + 1).take(i - start) =~= body.take(i - start));
            assert(body.take(i - start + 1).last() == body[i - start]);
        }
        if val > (bound - d) / 10 {
            proof {
                assert(crate::pointer::seg_digits_value(body.take(i - start + 1)) > bound);
                if digit_run_end(body, 0) == body.len() {
                    lemma_digit_run_end(body, 0);
                    crate::pointer::lemma_seg_value_grows_pub(body, i - start + 1);
                    assert(crate::pointer::seg_digits_value(body) > bound);
                }
            }
            return None;
        }
        val = val * 10 + d;
        i += 1;
    }
    proof {
        assert(body.take(n - start) =~= body);
        lemma_digit_run_end(body, 0);
        assert(digit_run_end(body, 0) == body.len()) by {
            lemma_digit_run_end_full(body);
        }
    }
    if neg {
        if val == 9223372036854775808 {
            return Some(i64::MIN);
        }
        let v = -(val as i64);
        Some(v)
    } else {
        Some(val as i64)
    }
}

/// A sequence of digits is one whole digit run.
proof fn lemma_digit_run_end_full(s: Seq<char>)
    requires
        forall|j: int| 0 <= j < s.len() ==> '0' <= #[trigger] s[j] <= '9',
    ensures
        digit_run_end(s, 0) == s.len(),
{
    lemma_digit_run_end(s, 0);
    if digit_run_end(s, 0) < s.len() {
        assert('0' <= s[digit_run_end(s, 0)] <= '9');
    }
}

} // verus!
