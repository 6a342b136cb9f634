//! Decimal integer literals: a verified parser and printer for `i64`, with a
//! proof that printing then parsing gives back the original value.

use crate::strutil;
use vstd::prelude::*;

verus! {

use vstd::arithmetic::div_mod::lemma_fundamental_div_mod;
use vstd::string::StrSliceExecFns;

/// A decimal digit.
pub open spec fn is_digit(c: char) -> bool {
    '0' <= c && c <= '9'
}

/// The numeric value of a decimal digit.
pub open spec fn digit_val(c: char) -> int {
    c as int - '0' as int
}

/// Every character of `s` is a decimal digit.
pub open spec fn all_digits(s: Seq<char>) -> bool {
    forall|i: int| 0 <= i < s.len() ==> is_digit(s[i])
}

/// The value of a digit string, most significant digit first.
pub open spec fn digits_val(s: Seq<char>) -> int
    decreases s.len(),
{
    if s.len() == 0 {
        0
    } else {
        digits_val(s.drop_last()) * 10 + digit_val(s.last())
    }
}

/// `s` without its optional leading sign.
pub open spec fn int_body(s: Seq<char>) -> Seq<char> {
    if s.len() > 0 && (s[0] == '-' || s[0] == '+') {
        s.drop_first()
    } else {
        s
    }
}

/// An optional `-` or `+` sign followed by one or more decimal digits.
pub open spec fn is_int_literal(s: Seq<char>) -> bool {
    int_body(s).len() > 0 && all_digits(int_body(s))
}

/// The mathematical value of an integer literal.
pub open spec fn int_lit_val(s: Seq<char>) -> int {
    if s.len() > 0 && s[0] == '-' {
        -digits_val(s.drop_first())
    } else {
        digits_val(int_body(s))
    }
}

/// The `i64` denoted by `s`: `Some` exactly when `s` is an integer literal
/// whose value fits in an `i64`.
pub open spec fn spec_parse_i64(s: Seq<char>) -> Option<i64> {
    if is_int_literal(s) && i64::MIN <= int_lit_val(s) <= i64::MAX {
        Some(int_lit_val(s) as i64)
    } else {
        None
    }
}

/// A digit string's value is never negative.
pub proof fn lemma_digits_val_nonneg(s: Seq<char>)
    requires
        all_digits(s),
    ensures
        digits_val(s) >= 0,
    decreases s.len(),
{
    if s.len() > 0 {
        assert(all_digits(s.drop_last()));
        lemma_digits_val_nonneg(s.drop_last());
    }
}

/// Parses a decimal `i64` literal: an optional sign and one or more digits,
/// rejecting any other character and any value outside the `i64` range.
pub fn parse_i64(s: &str) -> (r: Option<i64>)
    ensures
        r == spec_parse_i64(s@),
{
    let n = s.unicode_len();
    let mut start: usize = 0;
    let mut neg = false;
    if n > 0 {
        let c0 = s.get_char(0);
        if c0 == '-' {
            neg = true;
            start = 1;
        } else if c0 == '+' {
            start = 1;
        }
    }
    proof {
        assert(int_body(s@) =~= s@.skip(start as int));
    }
    if start == n {
        return None;
    }
    let limit: u64 = if neg {
        9223372036854775808
    } else {
        9223372036854775807
    };
    let ghost body = int_body(s@);
    let mut acc: u64 = 0;
    let mut over = false;
    let mut j: usize = start;
    while j < n
        invariant
            start <= j <= n,
            start <= 1,
            n == s@.len(),
            body == s@.skip(start as int),
            body == int_body(s@),
            body.len() == n - start,
            neg ==> s@[0] == '-',
            !neg && start == 1 ==> s@[0] == '+',
            limit == if neg {
                9223372036854775808u64
            } else {
                9223372036854775807u64
            },
            forall|k: int| 0 <= k < j - start ==> is_digit(body[k]),
            !over ==> acc as int == digits_val(body.take(j - start)) && acc <= limit,
            over ==> digits_val(body.take(j - start)) > limit,
        decreases n - j,
    {
        let c = s.get_char(j);
        proof {
            assert(body[j - start] == s@[j as int]);
            assert(body.take(j - start + 1).drop_last() =~= body.take(j - start));
        }
        if !('0' <= c && c <= '9') {
            proof {
                assert(!is_digit(int_body(s@)[j - start]));
            }
            return None;
        }
        let d: u64 = ((c as u32) - ('0' as u32)) as u64;
        proof {
            assert(d as int == digit_val(c));
        }
        let ghost prev = digits_val(body.take(j - start));
        if over {
            proof {
                assert(digits_val(body.take(j - start + 1)) == prev * 10 + d);
                assert(prev * 10 + d > limit);
            }
        } else if acc > (limit - d) / 10 {
            over = true;
            proof {
                lemma_fundamental_div_mod(limit as int - d, 10);
                assert(acc as int * 10 + d > limit);
                assert(digits_val(body.take(j - start + 1)) == prev * 10 + d);
            }
        } else {
            proof {
                lemma_fundamental_div_mod(limit as int - d, 10);
                assert(acc as int * 10 + d <= limit);
                assert(digits_val(body.take(j - start + 1)) == prev * 10 + d);
            }
            acc = acc * 10 + d;
        }
        j += 1;
    }
    proof {
        assert(body.take(n - start) =~= body);
        lemma_digits_val_nonneg(body);
    }
    if over {
        return None;
    }
    if neg {
        if acc == 9223372036854775808 {
            Some(i64::MIN)
        } else {
            Some(-(acc as i64))
        }
    } else {
        Some(acc as i64)
    }
}

/// The character for one decimal digit value.
pub open spec fn digit_char(d: int) -> char {
    if d == 0 {
        '0'
    } else if d == 1 {
        '1'
    } else if d == 2 {
        '2'
    } else if d == 3 {
        '3'
    } else if d == 4 {
        '4'
    } else if d == 5 {
        '5'
    } else if d == 6 {
        '6'
    } else if d == 7 {
        '7'
    } else if d == 8 {
        '8'
    } else {
        '9'
    }
}

/// The canonical digit string of a nonnegative value: no leading zeros
/// except for the value zero itself.
pub open spec fn spec_nat_digits(n: int) -> Seq<char>
    decreases n,
{
    if n < 10 {
        seq![digit_char(n)]
    } else {
        spec_nat_digits(n / 10).push(digit_char(n % 10))
    }
}

/// The canonical decimal string of an integer: a `-` sign for negative
/// values, then the digits of the magnitude.
pub open spec fn spec_i64_string(v: int) -> Seq<char> {
    if v >= 0 {
        spec_nat_digits(v)
    } else {
        seq!['-'] + spec_nat_digits(-v)
    }
}

/// The canonical digit string of `n` is a nonempty digit string whose value
/// is `n` again.
pub proof fn lemma_nat_digits_wf(n: int)
    requires
        n >= 0,
    ensures
        spec_nat_digits(n).len() >= 1,
        all_digits(spec_nat_digits(n)),
        digits_val(spec_nat_digits(n)) == n,
    decreases n,
{
    if n < 10 {
        let s = seq![digit_char(n)];
        assert(s.len() == 1);
        assert(s.drop_last() =~= Seq::<char>::empty());
        assert(digits_val(Seq::<char>::empty()) == 0);
        assert(digits_val(s) == digits_val(s.drop_last()) * 10 + digit_val(s.last()));
        assert(s.last() == digit_char(n));
        assert(digit_val(digit_char(n)) == n);
        assert(digits_val(s) == n);
    } else {
        lemma_nat_digits_wf(n / 10);
        lemma_fundamental_div_mod(n, 10);
        let s = spec_nat_digits(n / 10);
        let t = s.push(digit_char(n % 10));
        assert(t.drop_last() =~= s);
        assert forall|i: int| 0 <= i < t.len() implies is_digit(#[trigger] t[i]) by {
            if i < s.len() {
                assert(is_digit(s[i]));
            }
        };
    }
}

fn digit_char_exec(d: u64) -> (c: char)
    requires
        d < 10,
    ensures
        c == digit_char(d as int),
{
    if d == 0 {
        '0'
    } else if d == 1 {
        '1'
    } else if d == 2 {
        '2'
    } else if d == 3 {
        '3'
    } else if d == 4 {
        '4'
    } else if d == 5 {
        '5'
    } else if d == 6 {
        '6'
    } else if d == 7 {
        '7'
    } else if d == 8 {
        '8'
    } else {
        '9'
    }
}

/// Renders an `i64` as its canonical decimal string.
pub fn i64_to_string(v: i64) -> (r: String)
    ensures
        r@ == spec_i64_string(v as int),
{
    let neg = v < 0;
    let mut mag: u64 = if v == i64::MIN {
        9223372036854775808u64
    } else if v < 0 {
        (-v) as u64
    } else {
        v as u64
    };
    let ghost m0 = mag as int;
    let mut rev: Vec<char> = Vec::new();
    while mag >= 10
        invariant
            spec_nat_digits(m0) == spec_nat_digits(mag as int) + rev@.reverse(),
        decreases mag,
    {
        let ghost old_rev = rev@;
        let d = mag % 10;
        rev.push(digit_char_exec(d));
        proof {
            lemma_fundamental_div_mod(mag as int, 10);
            assert(rev@.reverse() =~= seq![digit_char(mag as int % 10)] + old_rev.reverse());
            assert(spec_nat_digits(mag as int / 10) + rev@.reverse() =~= spec_nat_digits(
                mag as int / 10,
            ).push(digit_char(mag as int % 10)) + old_rev.reverse());
        }
        mag = mag / 10;
    }
    let ghost old_rev = rev@;
    rev.push(digit_char_exec(mag));
    proof {
        assert(rev@.reverse() =~= seq![digit_char(mag as int)] + old_rev.reverse());
        assert(spec_nat_digits(mag as int) + old_rev.reverse() =~= seq![digit_char(mag as int)]
            + old_rev.reverse());
        assert(spec_nat_digits(m0) == rev@.reverse());
    }
    let mut out = String::new();
    let ghost prefix: Seq<char> = if neg {
        seq!['-']
    } else {
        Seq::empty()
    };
    if neg {
        strutil::push_char(&mut out, '-');
        proof {
            assert(out@ =~= prefix);
        }
    }
    let mut k = rev.len();
    while k > 0
        invariant
            0 <= k <= rev@.len(),
            out@ == prefix + rev@.skip(k as int).reverse(),
        decreases k,
    {
        let ghost old_out = out@;
        k -= 1;
        let c = rev[k];
        strutil::push_char(&mut out, c);
        proof {
            assert(rev@.skip(k as int).reverse() =~= rev@.skip(k + 1).reverse().push(
                rev@[k as int],
            ));
            assert(out@ =~= prefix + rev@.skip(k as int).reverse());
        }
    }
    proof {
        assert(rev@.skip(0) =~= rev@);
        assert(out@ == prefix + spec_nat_digits(m0));
        if v >= 0 {
            assert(out@ =~= spec_nat_digits(v as int));
        }
    }
    out
}

/// Printing an `i64` and parsing the result yields the same value again.
pub proof fn lemma_int_string_round_trip(v: i64)
    ensures
        spec_parse_i64(spec_i64_string(v as int)) == Some(v),
{
    if v >= 0 {
        lemma_nat_digits_wf(v as int);
        let s = spec_nat_digits(v as int);
        assert(is_digit(s[0]));
        assert(int_body(s) == s);
        assert(int_lit_val(s) == v);
    } else {
        lemma_nat_digits_wf(-(v as int));
        let d = spec_nat_digits(-(v as int));
        let s = seq!['-'] + d;
        assert(s[0] == '-');
        assert(s.drop_first() =~= d);
        assert(all_digits(int_body(s)));
        assert(int_lit_val(s) == v);
    }
}

} // verus!
