//! Numbers written in decimal.

use vstd::prelude::*;

use crate::text::chars_of;
use crate::text::string_of;

verus! {

/// The character of a decimal digit.
pub open spec fn digit_char(d: int) -> char {
    (48 + d) as u8 as char
}

/// The decimal digits of `n`, without leading zeros.
pub open spec fn digits(n: nat) -> Seq<char>
    decreases n,
{
    if n < 10 {
        seq![digit_char(n as int)]
    } else {
        digits(n / 10).push(digit_char((n % 10) as int))
    }
}

/// `n` in decimal, with a minus sign where it is negative.
pub open spec fn decimal(n: int) -> Seq<char> {
    if n < 0 {
        seq!['-'] + digits((-n) as nat)
    } else {
        digits(n as nat)
    }
}

/// `c` is a decimal digit.
pub open spec fn is_digit(c: char) -> bool {
    '0' <= c <= '9'
}

/// Decimal digits, at least one.
pub open spec fn is_digits(s: Seq<char>) -> bool {
    &&& s.len() > 0
    &&& forall|i: int| 0 <= i < s.len() ==> is_digit(#[trigger] s[i])
}

/// The number that a sequence of decimal digits writes.
pub open spec fn digits_value(s: Seq<char>) -> nat
    decreases s.len(),
{
    if s.len() == 0 {
        0
    } else {
        digits_value(s.drop_last()) * 10 + (s.last() as u8 - 48) as nat
    }
}

/// `s` without one leading plus sign, where something follows it.
pub open spec fn unsigned_part(s: Seq<char>) -> Seq<char> {
    if s.len() > 1 && s[0] == '+' {
        s.skip(1)
    } else {
        s
    }
}

/// The 32-bit number that `s` writes: decimal digits, after at most one plus
/// sign, whose value fits.
pub open spec fn u32_value(s: Seq<char>) -> Option<u32> {
    let d = unsigned_part(s);
    if is_digits(d) && digits_value(d) <= u32::MAX {
        Some(digits_value(d) as u32)
    } else {
        None
    }
}

fn small_digit(d: u8) -> (c: char)
    requires
        d < 10,
    ensures
        c == digit_char(d as int),
{
    (48 + d) as char
}

/// Writes `n` in decimal.
pub fn decimal_u64(n: u64) -> (s: String)
    ensures
        s@ == digits(n as nat),
{
    let mut rev: Vec<char> = Vec::new();
    let mut m: u64 = n;
    while m >= 10
        invariant
            digits(n as nat) =~= digits(m as nat) + rev@.reverse(),
        decreases m,
    {
        let c: char = small_digit((m % 10) as u8);
        let ghost before = rev@;
        rev.push(c);
        assert(rev@.reverse() =~= seq![c] + before.reverse());
        m = m / 10;
    }
    rev.push(small_digit(m as u8));
    assert(rev@.reverse() =~= digits(n as nat));
    let mut out: Vec<char> = Vec::new();
    let mut i: usize = rev.len();
    while i > 0
        invariant
            i <= rev.len(),
            out@ == rev@.reverse().take(rev@.len() - i),
        decreases i,
    {
        i -= 1;
        out.push(rev[i]);
        assert(rev@.reverse().take(rev@.len() - i) =~= rev@.reverse().take(
            rev@.len() - i - 1,
        ).push(rev@[i as int]));
    }
    assert(rev@.reverse().take(rev@.len() as int) =~= rev@.reverse());
    string_of(&out)
}

/// Writes `n` in decimal, with its sign.
pub fn decimal_i64(n: i64) -> (s: String)
    ensures
        s@ == decimal(n as int),
{
    if n < 0 {
        let magnitude: u64 = (-(n + 1)) as u64 + 1;
        let body: String = decimal_u64(magnitude);
        let mut s: String = String::new();
        s.push('-');
        s.append(body.as_str());
        assert(s@ =~= decimal(n as int));
        s
    } else {
        decimal_u64(n as u64)
    }
}

/// Reads a 32-bit number.
pub fn parse_u32(s: &str) -> (r: Option<u32>)
    ensures
        r == u32_value(s@),
{
    let v: Vec<char> = chars_of(s);
    let start: usize = if v.len() > 1 && v[0] == '+' {
        1
    } else {
        0
    };
    let ghost d = unsigned_part(s@);
    assert(d =~= v@.skip(start as int));
    if v.len() == 0 {
        return None;
    }
    let mut value: u32 = 0;
    let mut i: usize = start;
    while i < v.len()
        invariant
            start <= i <= v.len(),
            start < v.len(),
            d == v@.skip(start as int),
            d == unsigned_part(s@),
            forall|k: int| 0 <= k < i - start ==> is_digit(#[trigger] d[k]),
            value == digits_value(d.take(i - start)),
        decreases v.len() - i,
    {
        let c: char = v[i];
        assert(c == d[i - start]);
        if !('0' <= c && c <= '9') {
            assert(!is_digit(d[i - start]));
            return None;
        }
        let digit: u32 = (c as u8 - 48) as u32;
        assert(d.take(i - start + 1).drop_last() =~= d.take(i - start));
        assert(digits_value(d.take(i - start + 1)) == value * 10 + digit);
        if value > (u32::MAX - digit) / 10 {
            proof {
                lemma_prefix_value(d, i - start + 1);
            }
            return None;
        }
        value = value * 10 + digit;
        i += 1;
    }
    assert(d.take(v@.len() - start) =~= d);
    Some(value)
}

/// Digits put behind others never make the number smaller.
proof fn lemma_prefix_value(s: Seq<char>, n: int)
    requires
        0 <= n <= s.len(),
    ensures
        digits_value(s.take(n)) <= digits_value(s) || !is_digits(s),
    decreases s.len(),
{
    if n < s.len() {
        let r = s.drop_last();
        if is_digits(s) {
            if r.len() > 0 {
                assert forall|i: int| 0 <= i < r.len() implies is_digit(#[trigger] r[i]) by {
                    assert(is_digit(s[i]));
                }
                lemma_prefix_value(r, n);
            }
            assert(r.take(n) =~= s.take(n));
            assert(is_digit(s[s.len() - 1]));
        }
    } else {
        assert(s.take(n) =~= s);
    }
}

/// What is written in decimal reads back as the same number.
pub proof fn written_numbers_read_back(n: u32)
    ensures
        u32_value(digits(n as nat)) == Some(n),
{
    lemma_digits(n as nat);
    let s = digits(n as nat);
    assert(is_digit(s[0]));
}

/// The digits of a number are digits, and write that number.
pub proof fn lemma_digits(n: nat)
    ensures
        is_digits(digits(n)),
        digits_value(digits(n)) == n,
    decreases n,
{
    if n < 10 {
        reveal_with_fuel(digits_value, 2);
        assert(digits(n).drop_last() =~= Seq::<char>::empty());
    } else {
        lemma_digits(n / 10);
        let s = digits(n);
        assert(s.drop_last() =~= digits(n / 10));
        assert forall|i: int| 0 <= i < s.len() implies is_digit(#[trigger] s[i]) by {
            if i < s.len() - 1 {
                assert(s[i] == digits(n / 10)[i]);
            }
        }
    }
}

/// Two numbers written alike are equal.
pub proof fn decimals_are_distinct(a: int, b: int)
    requires
        decimal(a) == decimal(b),
    ensures
        a == b,
{
    lemma_digits(if a < 0 { (-a) as nat } else { a as nat });
    lemma_digits(if b < 0 { (-b) as nat } else { b as nat });
    if a < 0 && b < 0 {
        assert(decimal(a).skip(1) =~= digits((-a) as nat));
        assert(decimal(b).skip(1) =~= digits((-b) as nat));
    } else if a < 0 {
        assert(is_digit(digits(b as nat)[0]));
        assert(decimal(a)[0] == '-');
    } else if b < 0 {
        assert(is_digit(digits(a as nat)[0]));
        assert(decimal(b)[0] == '-');
    }
}

/// Each digit put behind others makes ten times their number and itself.
pub proof fn digits_count_tenfold(s: Seq<char>, c: char)
    requires
        '0' <= c <= '9',
    ensures
        digits_value(s.push(c)) == 10 * digits_value(s) + (c as u32 - '0' as u32),
        digits_value(Seq::empty()) == 0,
{
    assert(s.push(c).drop_last() =~= s);
}

/// A text is read as a number exactly if it is decimal digits, a plus sign before
/// them or not, and their number fits: leading zeros and the sign change nothing.
pub proof fn numbers_are_read_by_their_digits(s: &str, r: Option<u32>)
    requires
        call_ensures(parse_u32, (s,), r),
    ensures
        forall|d: Seq<char>|
            d.len() > 0 && (forall|i: int| 0 <= i < d.len() ==> '0' <= #[trigger] d[i] <= '9') && (
            s@ == d || s@ == #[trigger] (seq!['+'] + d)) ==> match r {
                Some(n) => n == digits_value(d),
                None => digits_value(d) > u32::MAX,
            },
        r is Some ==> s@.len() > 0 && forall|i: int|
            0 <= i < s@.len() ==> ('0' <= #[trigger] s@[i] <= '9') || (i == 0 && s@[0] == '+'
                && s@.len() > 1),
{
    let u = unsigned_part(s@);
    assert forall|d: Seq<char>|
        d.len() > 0 && (forall|i: int| 0 <= i < d.len() ==> '0' <= #[trigger] d[i] <= '9') && (s@
            == d || s@ == #[trigger] (seq!['+'] + d)) implies match r {
        Some(n) => n == digits_value(d),
        None => digits_value(d) > u32::MAX,
    } by {
        assert('0' <= d[0]);
        assert(is_digits(d)) by {
            assert forall|i: int| 0 <= i < d.len() implies is_digit(#[trigger] d[i]) by {}
        }
        if s@ == d {
            assert(u == d);
        } else {
            assert(s@.skip(1) =~= d);
        }
    }
    if r is Some {
        assert forall|i: int| 0 <= i < s@.len() implies ('0' <= #[trigger] s@[i] <= '9') || (i == 0
            && s@[0] == '+' && s@.len() > 1) by {
            if s@.len() > 1 && s@[0] == '+' {
                if i > 0 {
                    assert(is_digit(u[i - 1]));
                }
            } else {
                assert(is_digit(u[i]));
            }
        }
    }
}

/// A number is written with its digits, without zeros before them, and with a
/// minus sign exactly where it is negative.
pub proof fn numbers_are_written_by_their_digits(n: i64, r: String)
    requires
        call_ensures(decimal_i64, (n,), r),
    ensures
        n >= 0 ==> is_digits(r@) && digits_value(r@) == n,
        n < 0 ==> r@[0] == '-' && is_digits(r@.skip(1)) && digits_value(r@.skip(1)) == -n,
        n >= 10 ==> r@[0] != '0',
        n <= -10 ==> r@[1] != '0',
        -10 < n < 10 ==> r@.len() == (if n < 0 {
            2int
        } else {
            1int
        }),
{
    let size = if n < 0 {
        (-(n as int)) as nat
    } else {
        n as nat
    };
    lemma_digits(size);
    lemma_no_leading_zero(size);
    if n < 0 {
        assert(r@.skip(1) =~= digits(size));
    }
}

/// The same of a number without a sign.
pub proof fn counts_are_written_by_their_digits(n: u64, r: String)
    requires
        call_ensures(decimal_u64, (n,), r),
    ensures
        is_digits(r@),
        digits_value(r@) == n,
        n >= 10 ==> r@[0] != '0',
        n < 10 ==> r@.len() == 1,
{
    lemma_digits(n as nat);
    lemma_no_leading_zero(n as nat);
}

proof fn lemma_no_leading_zero(n: nat)
    ensures
        n > 0 ==> digits(n)[0] != '0',
        n < 10 ==> digits(n).len() == 1,
    decreases n,
{
    if n >= 10 {
        lemma_no_leading_zero(n / 10);
        lemma_digits(n / 10);
        assert(digits(n)[0] == digits(n / 10)[0]);
    }
}

} // verus!
