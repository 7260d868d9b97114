//! Numeric field handling: parsing signed decimal integers, and validating
//! the shape of floating-point literals. Floating-point fields are carried
//! through as their validated text; only their well-formedness matters to
//! the parse.
use vstd::prelude::*;

use crate::text::tail_from;

verus! {

pub open spec fn is_digit(c: char) -> bool {
    '0' <= c && c <= '9'
}

pub open spec fn digit_val(c: char) -> int {
    c as int - '0' as int
}

pub open spec fn all_digits(s: Seq<char>) -> bool {
    forall|i: int| 0 <= i < s.len() ==> is_digit(#[trigger] s[i])
}

/// The value of an unsigned decimal digit string.
pub open spec fn dec_val(s: Seq<char>) -> int
    decreases s.len(),
{
    if s.len() == 0 {
        0
    } else {
        dec_val(s.subrange(0, s.len() - 1)) * 10 + digit_val(s.last())
    }
}

pub proof fn lemma_dec_val_nonneg(s: Seq<char>)
    requires
        all_digits(s),
    ensures
        dec_val(s) >= 0,
    decreases s.len(),
{
    if s.len() > 0 {
        let pre = s.subrange(0, s.len() - 1);
        assert(all_digits(pre));
        lemma_dec_val_nonneg(pre);
    }
}

/// Extending a digit string never shrinks its value.
pub proof fn lemma_dec_val_prefix(s: Seq<char>, k: int)
    requires
        all_digits(s),
        0 <= k <= s.len(),
    ensures
        dec_val(s.subrange(0, k)) <= dec_val(s),
    decreases s.len() - k,
{
    if k == s.len() {
        assert(s.subrange(0, k) =~= s);
    } else {
        let p = s.subrange(0, k + 1);
        assert(all_digits(p));
        assert(p.subrange(0, k) =~= s.subrange(0, k));
        lemma_dec_val_nonneg(s.subrange(0, k));
        assert(dec_val(s.subrange(0, k)) <= dec_val(p));
        lemma_dec_val_prefix(s, k + 1);
        assert(s.subrange(0, k + 1) =~= p);
    }
}

/// The sign-stripped body of a numeric field.
pub open spec fn num_body(s: Seq<char>) -> Seq<char> {
    if s.len() > 0 && (s[0] == '+' || s[0] == '-') {
        s.subrange(1, s.len() as int)
    } else {
        s
    }
}

pub open spec fn num_sign(s: Seq<char>) -> int {
    if s.len() > 0 && s[0] == '-' {
        -1
    } else {
        1
    }
}

/// True where the text is an optionally signed run of decimal digits whose
/// signed value fits a 32-bit integer: exactly the strings a signed 32-bit
/// decimal parse accepts.
pub open spec fn valid_i32(s: Seq<char>) -> bool {
    let b = num_body(s);
    b.len() > 0 && all_digits(b) && i32::MIN <= num_sign(s) * dec_val(b) <= i32::MAX
}

/// The signed value of a valid 32-bit decimal field.
pub open spec fn i32_of(s: Seq<char>) -> int {
    num_sign(s) * dec_val(num_body(s))
}

/// Parses an optionally signed decimal integer, exactly as a 32-bit parse
/// would: `None` on an empty body, a stray character, or overflow.
#[verifier::loop_isolation(false)]
pub fn parse_i32(v: &Vec<char>) -> (r: Option<i32>)
    ensures
        r is Some <==> valid_i32(v@),
        r is Some ==> r->0 as int == i32_of(v@),
{
    let ghost b = num_body(v@);
    let mut i: usize = 0;
    let mut neg: bool = false;
    if v.len() > 0 && (v[0] == '+' || v[0] == '-') {
        neg = v[0] == '-';
        i = 1;
    }
    let ghost start = i as int;
    proof {
        assert(b =~= v@.subrange(start, v@.len() as int));
    }
    if i >= v.len() {
        // empty body
        return None;
    }
    let mut acc: u64 = 0;
    while i < v.len()
        invariant
            start <= i as int <= v@.len(),
            b == v@.subrange(start, v@.len() as int),
            b.len() == v@.len() - start,
            neg == (num_sign(v@) == -1),
            all_digits(v@.subrange(start, i as int)),
            acc as int == dec_val(v@.subrange(start, i as int)),
            acc <= 0x8000_0000,
        decreases v@.len() - i,
    {
        let c = v[i];
        if !(c >= '0' && c <= '9') {
            proof {
                assert(b[i as int - start] == c);
                assert(!all_digits(b));
            }
            return None;
        }
        let d: u64 = (c as u32 - 48) as u64;
        let ghost pre = v@.subrange(start, i as int);
        acc = acc * 10 + d;
        i = i + 1;
        proof {
            let p2 = v@.subrange(start, i as int);
            assert(p2.subrange(0, p2.len() - 1) =~= pre);
            assert(p2.last() == c);
            assert(digit_val(c) == d as int);
        }
        if acc > 0x8000_0000 {
            proof {
                let p2 = v@.subrange(start, i as int);
                if valid_i32(v@) {
                    lemma_dec_val_prefix(b, i as int - start);
                    assert(b.subrange(0, i as int - start) =~= p2);
                    lemma_dec_val_nonneg(b);
                }
            }
            return None;
        }
    }
    proof {
        assert(v@.subrange(start, i as int) =~= b);
    }
    if neg {
        if acc > 0x8000_0000 {
            return None;
        }
        let m: i64 = -(acc as i64);
        Some(m as i32)
    } else {
        if acc > 0x7FFF_FFFF {
            return None;
        }
        Some(acc as i32)
    }
}

/// The number of consecutive decimal digits starting at a position.
pub open spec fn digits_from(s: Seq<char>, i: int) -> int
    decreases s.len() - i,
{
    if i < 0 || i >= s.len() || !is_digit(s[i]) {
        0
    } else {
        1 + digits_from(s, i + 1)
    }
}

proof fn lemma_digits_from(s: Seq<char>, i: int, j: int)
    requires
        0 <= i <= j <= s.len(),
        forall|k: int| i <= k < j ==> is_digit(#[trigger] s[k]),
        j == s.len() || !is_digit(s[j]),
    ensures
        digits_from(s, i) == j - i,
    decreases j - i,
{
    if i < j {
        lemma_digits_from(s, i + 1, j);
    }
}

/// Counts the consecutive digits from a position on.
pub fn count_digits(v: &Vec<char>, from: usize) -> (n: usize)
    requires
        from <= v@.len(),
    ensures
        n == digits_from(v@, from as int),
        from + n <= v@.len(),
{
    let mut i: usize = from;
    while i < v.len() && v[i] >= '0' && v[i] <= '9'
        invariant
            from <= i <= v@.len(),
            forall|k: int| from <= k < i ==> is_digit(#[trigger] v@[k]),
        decreases v@.len() - i,
    {
        i = i + 1;
    }
    proof {
        lemma_digits_from(v@, from as int, i as int);
    }
    i - from
}

/// True where the sign-stripped body spells infinity or a non-number,
/// in any letter case.
pub open spec fn is_inf_nan(b: Seq<char>) -> bool {
    (b.len() == 3 && (b[0] == 'i' || b[0] == 'I') && (b[1] == 'n' || b[1] == 'N') && (b[2] == 'f'
        || b[2] == 'F')) || (b.len() == 8 && (b[0] == 'i' || b[0] == 'I') && (b[1] == 'n' || b[1]
        == 'N') && (b[2] == 'f' || b[2] == 'F') && (b[3] == 'i' || b[3] == 'I') && (b[4] == 'n'
        || b[4] == 'N') && (b[5] == 'i' || b[5] == 'I') && (b[6] == 't' || b[6] == 'T') && (b[7]
        == 'y' || b[7] == 'Y')) || (b.len() == 3 && (b[0] == 'n' || b[0] == 'N') && (b[1] == 'a'
        || b[1] == 'A') && (b[2] == 'n' || b[2] == 'N'))
}

/// True where the sign-stripped body is a decimal number: digits with an
/// optional point and fraction, then an optional exponent part, with at
/// least one digit before the exponent and nothing left over.
pub open spec fn valid_number(b: Seq<char>) -> bool {
    let n1 = digits_from(b, 0);
    let has_dot = n1 < b.len() && b[n1] == '.';
    let n2 = if has_dot {
        digits_from(b, n1 + 1)
    } else {
        0
    };
    let epos = n1 + if has_dot {
        1 + n2
    } else {
        0
    };
    let mant_ok = n1 > 0 || (has_dot && n2 > 0);
    if !mant_ok {
        false
    } else if epos == b.len() {
        true
    } else if b[epos] == 'e' || b[epos] == 'E' {
        let spos = if epos + 1 < b.len() && (b[epos + 1] == '+' || b[epos + 1] == '-') {
            epos + 2
        } else {
            epos + 1
        };
        let n3 = digits_from(b, spos);
        n3 > 0 && spos + n3 == b.len()
    } else {
        false
    }
}

/// True where the text is a well-formed floating-point literal: an optional
/// sign, then either a decimal number, infinity, or a non-number.
pub open spec fn valid_float(s: Seq<char>) -> bool {
    let b = num_body(s);
    is_inf_nan(b) || valid_number(b)
}

/// Checks the shape of a floating-point field.
pub fn check_float(v: &Vec<char>) -> (r: bool)
    ensures
        r == valid_float(v@),
{
    let mut start: usize = 0;
    if v.len() > 0 && (v[0] == '+' || v[0] == '-') {
        start = 1;
    }
    let b = tail_from(v, start);
    proof {
        assert(b@ == num_body(v@));
    }
    if check_inf_nan(&b) {
        return true;
    }
    check_number(&b)
}

fn check_inf_nan(b: &Vec<char>) -> (r: bool)
    ensures
        r == is_inf_nan(b@),
{
    if b.len() == 3 {
        let c0 = b[0];
        let c1 = b[1];
        let c2 = b[2];
        ((c0 == 'i' || c0 == 'I') && (c1 == 'n' || c1 == 'N') && (c2 == 'f' || c2 == 'F')) || ((c0
            == 'n' || c0 == 'N') && (c1 == 'a' || c1 == 'A') && (c2 == 'n' || c2 == 'N'))
    } else if b.len() == 8 {
        (b[0] == 'i' || b[0] == 'I') && (b[1] == 'n' || b[1] == 'N') && (b[2] == 'f' || b[2]
            == 'F') && (b[3] == 'i' || b[3] == 'I') && (b[4] == 'n' || b[4] == 'N') && (b[5] == 'i'
            || b[5] == 'I') && (b[6] == 't' || b[6] == 'T') && (b[7] == 'y' || b[7] == 'Y')
    } else {
        false
    }
}

fn check_number(b: &Vec<char>) -> (r: bool)
    ensures
        r == valid_number(b@),
{
    let n1 = count_digits(b, 0);
    let has_dot = n1 < b.len() && b[n1] == '.';
    let n2 = if has_dot {
        count_digits(b, n1 + 1)
    } else {
        0
    };
    let epos = n1 + if has_dot {
        1 + n2
    } else {
        0
    };
    let mant_ok = n1 > 0 || (has_dot && n2 > 0);
    if !mant_ok {
        false
    } else if epos == b.len() {
        true
    } else if b[epos] == 'e' || b[epos] == 'E' {
        let spos = if epos + 1 < b.len() && (b[epos + 1] == '+' || b[epos + 1] == '-') {
            epos + 2
        } else {
            epos + 1
        };
        let n3 = count_digits(b, spos);
        n3 > 0 && spos + n3 == b.len()
    } else {
        false
    }
}

} // verus!
