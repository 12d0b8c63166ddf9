//! Decimal integers in text: reading them as `str::parse` does for `u64` and
//! `i32`, and writing them as `Display` does.

use vstd::prelude::*;
use vstd::string::*;

verus! {

pub open spec fn is_digit(c: char) -> bool {
    '0' <= c && c <= '9'
}

pub open spec fn digit_value(c: char) -> int {
    c as int - '0' as int
}

pub open spec fn all_digits(s: Seq<char>) -> bool {
    forall|i: int| 0 <= i < s.len() ==> is_digit(#[trigger] s[i])
}

/// The number that the decimal digits `s` denote (most significant first).
pub open spec fn digits_value(s: Seq<char>) -> int
    decreases s.len(),
{
    if s.len() == 0 {
        0
    } else {
        10 * digits_value(s.drop_last()) + digit_value(s.last())
    }
}

/// `s` without one leading `'+'`, the sign that every integer parse accepts.
pub open spec fn without_plus(s: Seq<char>) -> Seq<char> {
    if s.len() > 0 && s[0] == '+' {
        s.drop_first()
    } else {
        s
    }
}

/// What `s.parse::<u64>()` gives: an optional `'+'`, then one or more decimal
/// digits whose value fits in a `u64`; anything else is an error.
pub open spec fn spec_parse_u64(s: Seq<char>) -> Option<u64> {
    let d = without_plus(s);
    if d.len() > 0 && all_digits(d) && digits_value(d) <= u64::MAX {
        Some(digits_value(d) as u64)
    } else {
        None
    }
}

/// What `s.parse::<i32>()` gives: an optional `'+'` or `'-'`, then one or more
/// decimal digits, with the signed value in the range of `i32`.
pub open spec fn spec_parse_i32(s: Seq<char>) -> Option<i32> {
    let negative = s.len() > 0 && s[0] == '-';
    let d = if s.len() > 0 && (s[0] == '+' || s[0] == '-') {
        s.drop_first()
    } else {
        s
    };
    let v = if negative {
        -digits_value(d)
    } else {
        digits_value(d)
    };
    if d.len() > 0 && all_digits(d) && i32::MIN <= v <= i32::MAX {
        Some(v as i32)
    } else {
        None
    }
}

pub open spec fn digit_char(d: nat) -> char {
    (48 + d) as char
}

/// The decimal digits of `n`, without leading zeros.
pub open spec fn decimal_digits(n: nat) -> Seq<char>
    decreases n,
{
    if n < 10 {
        seq![digit_char(n)]
    } else {
        decimal_digits(n / 10).push(digit_char(n % 10))
    }
}

/// `n` written in decimal, with a leading `'-'` when it is negative.
pub open spec fn decimal(n: int) -> Seq<char> {
    if n < 0 {
        seq!['-'] + decimal_digits((-n) as nat)
    } else {
        decimal_digits(n as nat)
    }
}

proof fn lemma_digits_value_nonneg(s: Seq<char>)
    requires
        all_digits(s),
    ensures
        digits_value(s) >= 0,
    decreases s.len(),
{
    if s.len() > 0 {
        assert(is_digit(s[s.len() - 1]));
        lemma_digits_value_nonneg(s.drop_last());
    }
}

/// A prefix of a run of digits never denotes more than the whole run.
proof fn lemma_digits_prefix_le(s: Seq<char>, k: int)
    requires
        all_digits(s),
        0 <= k <= s.len(),
    ensures
        digits_value(s.take(k)) <= digits_value(s),
    decreases s.len(),
{
    if k == s.len() {
        assert(s.take(k) =~= s);
    } else {
        assert(is_digit(s[s.len() - 1]));
        lemma_digits_value_nonneg(s.drop_last());
        lemma_digits_prefix_le(s.drop_last(), k);
        assert(s.drop_last().take(k) =~= s.take(k));
    }
}

/// Reads the digits of `s` from `from` on, refusing a value above `limit`.
fn digits_up_to(s: &str, from: usize, limit: u64) -> (r: Option<u64>)
    requires
        from <= s@.len(),
    ensures
        ({
            let d = s@.skip(from as int);
            r == if d.len() > 0 && all_digits(d) && digits_value(d) <= limit {
                Some(digits_value(d) as u64)
            } else {
                None::<u64>
            }
        }),
        r matches Some(v) ==> v as int == digits_value(s@.skip(from as int)),
{
    let n = s.unicode_len();
    let ghost d = s@.skip(from as int);
    if from == n {
        return None;
    }
    let mut acc: u64 = 0;
    let mut i: usize = from;
    proof {
        assert(d.take(0) =~= Seq::<char>::empty());
    }
    while i < n
        invariant
            n == s@.len(),
            from <= i <= n,
            d == s@.skip(from as int),
            forall|j: int| 0 <= j < i - from ==> is_digit(#[trigger] d[j]),
            acc == digits_value(d.take(i - from)),
            acc <= limit,
        decreases n - i,
    {
        let c = s.get_char(i);
        let ghost k = i - from;
        proof {
            assert(d[k] == c);
            assert(d.take(k + 1).drop_last() =~= d.take(k));
            assert(d.take(k + 1).last() == c);
        }
        if !('0' <= c && c <= '9') {
            proof {
                assert(!is_digit(d[k]));
            }
            return None;
        }
        let digit: u64 = (c as u32 - '0' as u32) as u64;
        let next = match acc.checked_mul(10) {
            Some(t) => t.checked_add(digit),
            None => None,
        };
        match next {
            Some(v) if v <= limit => {
                acc = v;
            },
            _ => {
                proof {
                    if all_digits(d) {
                        lemma_digits_prefix_le(d, k + 1);
                    }
                }
                return None;
            },
        }
        i = i + 1;
    }
    proof {
        assert(d.take(n - from) =~= d);
        lemma_digits_value_nonneg(d);
    }
    Some(acc)
}

/// Parses `s` as `s.parse::<u64>()` does.
pub fn parse_u64(s: &str) -> (r: Option<u64>)
    ensures
        r == spec_parse_u64(s@),
{
    let n = s.unicode_len();
    if n > 0 && s.get_char(0) == '+' {
        proof {
            assert(s@.skip(1) =~= s@.drop_first());
        }
        digits_up_to(s, 1, u64::MAX)
    } else {
        proof {
            assert(s@.skip(0) =~= s@);
        }
        digits_up_to(s, 0, u64::MAX)
    }
}

/// Parses `s` as `s.parse::<i32>()` does.
pub fn parse_i32(s: &str) -> (r: Option<i32>)
    ensures
        r == spec_parse_i32(s@),
{
    let n = s.unicode_len();
    if n > 0 && s.get_char(0) == '-' {
        proof {
            assert(s@.skip(1) =~= s@.drop_first());
        }
        match digits_up_to(s, 1, 2147483648) {
            Some(v) => {
                proof {
                    let d = s@.skip(1);
                    assert(d.len() > 0 && all_digits(d) && digits_value(d) <= 2147483648);
                    assert(v as int == digits_value(d));
                }
                let w: i64 = 0 - (v as i64);
                Some(w as i32)
            },
            None => {
                proof {
                    let d = s@.drop_first();
                    if d.len() > 0 && all_digits(d) {
                        lemma_digits_value_nonneg(d);
                    }
                }
                None
            },
        }
    } else {
        let from: usize = if n > 0 && s.get_char(0) == '+' { 1 } else { 0 };
        proof {
            if from == 1 {
                assert(s@.skip(1) =~= s@.drop_first());
            } else {
                assert(s@.skip(0) =~= s@);
            }
        }
        match digits_up_to(s, from, 2147483647) {
            Some(v) => Some(v as i32),
            None => {
                proof {
                    let d = s@.skip(from as int);
                    if d.len() > 0 && all_digits(d) {
                        lemma_digits_value_nonneg(d);
                    }
                }
                None
            },
        }
    }
}

/// Appends one character: `String::push`.
#[verifier::external_body]
fn push_char(s: &mut String, c: char)
    ensures
        final(s)@ == old(s)@.push(c),
{
    s.push(c);
}

fn push_digits(out: &mut String, m: u64)
    ensures
        final(out)@ == old(out)@ + decimal_digits(m as nat),
    decreases m,
{
    if m >= 10 {
        push_digits(out, m / 10);
    }
    let d: u8 = (m % 10) as u8;
    let c = (48u8 + d) as char;
    proof {
        assert(c == digit_char((m % 10) as nat));
    }
    push_char(out, c);
    proof {
        if m >= 10 {
            assert(decimal_digits(m as nat) == decimal_digits((m / 10) as nat).push(
                digit_char((m % 10) as nat),
            ));
        }
    }
    assert(final(out)@ =~= old(out)@ + decimal_digits(m as nat));
}

/// Appends `n` written in decimal, as `format!("{}", n)` writes it.
pub fn push_decimal(out: &mut String, n: i32)
    ensures
        final(out)@ == old(out)@ + decimal(n as int),
{
    if n < 0 {
        push_char(out, '-');
        let m: u64 = (0 - (n as i64)) as u64;
        push_digits(out, m);
        assert(final(out)@ =~= old(out)@ + decimal(n as int));
    } else {
        push_digits(out, n as u64);
    }
}

proof fn lemma_decimal_digits(m: nat)
    ensures
        decimal_digits(m).len() > 0,
        all_digits(decimal_digits(m)),
        digits_value(decimal_digits(m)) == m,
    decreases m,
{
    let s = decimal_digits(m);
    assert(digit_value(digit_char(m % 10)) == m % 10);
    assert(s.last() == digit_char(m % 10));
    assert(digits_value(s) == 10 * digits_value(s.drop_last()) + digit_value(s.last()));
    if m < 10 {
        assert(s.drop_last() =~= Seq::<char>::empty());
        assert(digits_value(s.drop_last()) == 0);
    } else {
        lemma_decimal_digits(m / 10);
        let p = decimal_digits(m / 10);
        assert(s.drop_last() =~= p);
        assert(m == 10 * (m / 10) + m % 10);
        assert forall|i: int| 0 <= i < s.len() implies is_digit(#[trigger] s[i]) by {
            if i < p.len() {
                assert(s[i] == p[i]);
            }
        }
    }
}

/// Writing a number in decimal and reading it back gives the number: for every
/// `i32` value `n`, `spec_parse_i32(decimal(n)) == Some(n)`.
pub proof fn law_parse_i32_reads_decimal(n: i32)
    ensures
        spec_parse_i32(decimal(n as int)) == Some(n),
{
    let s = decimal(n as int);
    if n < 0 {
        let m = (-n) as nat;
        lemma_decimal_digits(m);
        assert(s.drop_first() =~= decimal_digits(m));
    } else {
        lemma_decimal_digits(n as nat);
        assert(is_digit(s[0]));
    }
}

/// The same for `u64`: `spec_parse_u64(decimal(n)) == Some(n)`.
pub proof fn law_parse_u64_reads_decimal(n: u64)
    ensures
        spec_parse_u64(decimal(n as int)) == Some(n),
{
    lemma_decimal_digits(n as nat);
    assert(is_digit(decimal(n as int)[0]));
}

} // verus!
