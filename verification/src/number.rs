//! Decimal integers as text: reading them as `str::parse` does for the signed
//! integer types, and writing them as their `Display` impls do.
use vstd::prelude::*;

verus! {

/// Whether `c` is an ASCII decimal digit.
pub open spec fn is_digit(c: char) -> bool {
    48 <= (c as u32) <= 57
}

/// The value of the decimal digit `c`.
pub open spec fn digit_value(c: char) -> int {
    (c as u32) - 48
}

/// Whether every character of `s` is a decimal digit.
pub open spec fn all_digits(s: Seq<char>) -> bool {
    forall|i: int| 0 <= i < s.len() ==> is_digit(#[trigger] s[i])
}

/// The value of the digit string `s`, most significant digit first.
pub open spec fn digits_value(s: Seq<char>) -> int
    decreases s.len(),
{
    if s.len() == 0 {
        0
    } else {
        digits_value(s.drop_last()) * 10 + digit_value(s.last())
    }
}

/// The integer that `s` denotes, as the signed integer types read it: an
/// optional `+` or `-`, then one digit or more; anything else is no integer.
pub open spec fn int_of(s: Seq<char>) -> Option<int> {
    if s.len() > 0 && (s[0] == '+' || s[0] == '-') {
        let d = s.drop_first();
        if d.len() > 0 && all_digits(d) {
            if s[0] == '-' {
                Some(-digits_value(d))
            } else {
                Some(digits_value(d))
            }
        } else {
            None
        }
    } else if s.len() > 0 && all_digits(s) {
        Some(digits_value(s))
    } else {
        None
    }
}

/// What parsing `s` into an integer type whose values run from `lo` to `hi`
/// gives: the integer, or `None` where `s` is no integer or out of range.
pub open spec fn int_in_range(s: Seq<char>, lo: int, hi: int) -> Option<int> {
    match int_of(s) {
        Some(v) => if lo <= v <= hi {
            Some(v)
        } else {
            None
        },
        None => None,
    }
}

/// The digit character for `d`.
pub open spec fn digit_char(d: nat) -> char {
    if d == 0 {
        '0'
    } else if d == 1 {
        '1'
    } else if d == 2 {
        '2'
    } else if d == 3 {
        '3'
    } else if d == 4 {
        '4'
    } else if d == 5 {
        '5'
    } else if d == 6 {
        '6'
    } else if d == 7 {
        '7'
    } else if d == 8 {
        '8'
    } else {
        '9'
    }
}

/// The decimal digits of `n`, without leading zeros.
pub open spec fn digits_of(n: nat) -> Seq<char>
    decreases n,
{
    if n < 10 {
        seq![digit_char(n)]
    } else {
        digits_of(n / 10).push(digit_char(n % 10))
    }
}

/// `n` written in decimal, with a `-` in front when negative.
pub open spec fn decimal(n: int) -> Seq<char> {
    if n < 0 {
        seq!['-'] + digits_of((-n) as nat)
    } else {
        digits_of(n as nat)
    }
}

proof fn lemma_digits_value_nonneg(s: Seq<char>)
    requires
        all_digits(s),
    ensures
        digits_value(s) >= 0,
    decreases s.len(),
{
    if s.len() > 0 {
        assert(is_digit(s[s.len() - 1]));
        lemma_digits_value_nonneg(s.drop_last());
    }
}

/// A digit string is worth at least as much as each of its prefixes.
proof fn lemma_digits_value_prefix(s: Seq<char>, k: int)
    requires
        all_digits(s),
        0 <= k <= s.len(),
    ensures
        digits_value(s.subrange(0, k)) <= digits_value(s),
    decreases s.len(),
{
    if k < s.len() {
        assert(is_digit(s[s.len() - 1]));
        lemma_digits_value_prefix(s.drop_last(), k);
        assert(s.drop_last().subrange(0, k) =~= s.subrange(0, k));
        lemma_digits_value_nonneg(s.drop_last());
    } else {
        assert(s.subrange(0, k) =~= s);
    }
}

proof fn lemma_digits_of(n: nat)
    ensures
        digits_of(n).len() >= 1,
        all_digits(digits_of(n)),
        digits_value(digits_of(n)) == n,
    decreases n,
{
    assert(is_digit(digit_char(n % 10)) && digit_value(digit_char(n % 10)) == n % 10);
    if n >= 10 {
        lemma_digits_of(n / 10);
        let d = digits_of(n);
        assert(d.drop_last() =~= digits_of(n / 10));
        assert(d.last() == digit_char(n % 10));
        assert(digits_value(d) == digits_value(digits_of(n / 10)) * 10 + n % 10);
        assert forall|i: int| 0 <= i < d.len() implies is_digit(#[trigger] d[i]) by {
            if i < d.len() - 1 {
                assert(d[i] == digits_of(n / 10)[i]);
            }
        }
    } else {
        assert(digits_of(n).drop_last() =~= Seq::<char>::empty());
        assert(digits_value(Seq::<char>::empty()) == 0);
        assert(digits_value(digits_of(n)) == n);
    }
}

proof fn lemma_digits_of_first(n: nat)
    ensures
        n > 0 ==> digits_of(n)[0] != '0',
    decreases n,
{
    if n >= 10 {
        lemma_digits_of_first(n / 10);
        lemma_digits_of(n / 10);
        assert(digits_of(n)[0] == digits_of(n / 10)[0]);
    }
}

/// A natural number written in decimal is made of digits worth that number,
/// and has no leading zero: its first digit is `0` only for 0 itself.
pub proof fn lemma_decimal_natural(n: int)
    requires
        n >= 0,
    ensures
        decimal(n).len() >= 1,
        all_digits(decimal(n)),
        digits_value(decimal(n)) == n,
        n > 0 ==> decimal(n)[0] != '0',
{
    lemma_digits_of(n as nat);
    lemma_digits_of_first(n as nat);
}

/// Reading back what `decimal` wrote gives the number again.
pub proof fn lemma_int_of_decimal(n: int)
    ensures
        int_of(decimal(n)) == Some(n),
        decimal(n).len() >= 1,
{
    if n < 0 {
        let m = (-n) as nat;
        lemma_digits_of(m);
        let s = decimal(n);
        assert(s.drop_first() =~= digits_of(m));
    } else {
        lemma_digits_of(n as nat);
        let s = digits_of(n as nat);
        assert(is_digit(s[0]));
    }
}

/// Decimal text never begins or ends with whitespace and holds no `=` and
/// no line break.
pub proof fn lemma_decimal_chars(n: int)
    ensures
        forall|i: int|
            0 <= i < decimal(n).len() ==> (#[trigger] decimal(n)[i] == '-' || is_digit(
                decimal(n)[i],
            )),
        decimal(n).last() != '-',
{
    lemma_int_of_decimal(n);
    if n < 0 {
        let m = (-n) as nat;
        lemma_digits_of(m);
        let s = decimal(n);
        assert forall|i: int| 0 <= i < s.len() implies (#[trigger] s[i] == '-' || is_digit(
            s[i],
        )) by {
            if i > 0 {
                assert(s[i] == digits_of(m)[i - 1]);
            }
        }
        assert(s.last() == digits_of(m)[digits_of(m).len() - 1]);
    } else {
        lemma_digits_of(n as nat);
        let s = decimal(n);
        assert(is_digit(s[s.len() - 1]));
    }
}

/// The integer `s` denotes, if it lies between `lo` and `hi`.
pub fn parse_int_in(s: &[char], lo: i64, hi: i64) -> (r: Option<i64>)
    requires
        lo < 0 < hi,
    ensures
        r == (match int_in_range(s@, lo as int, hi as int) {
            Some(v) => Some(v as i64),
            None => None::<i64>,
        }),
{
    let n = s.len();
    if n == 0 {
        return None;
    }
    let neg = s[0] == '-';
    let start: usize = if s[0] == '+' || s[0] == '-' {
        1
    } else {
        0
    };
    if start == n {
        return None;
    }
    let ghost d = s@.subrange(start as int, n as int);
    proof {
        if start == 1 {
            assert(d =~= s@.drop_first());
        } else {
            assert(d =~= s@);
        }
    }
    let bound: u128 = if neg {
        (0i128 - lo as i128) as u128
    } else {
        hi as u128
    };
    let mut acc: u128 = 0;
    let mut i: usize = start;
    while i < n
        invariant
            start <= i <= n == s@.len(),
            d == s@.subrange(start as int, n as int),
            acc == digits_value(d.subrange(0, i - start)),
            acc <= bound,
            bound <= 0x8000_0000_0000_0000,
            s@.len() > 0,
            start <= 1,
            neg == (s@[0] == '-'),
            neg ==> bound == -lo,
            !neg ==> bound == hi,
            start == 1 ==> d == s@.drop_first() && (s@[0] == '+' || s@[0] == '-'),
            start == 0 ==> d == s@ && !(s@[0] == '+' || s@[0] == '-'),
            forall|k: int| start <= k < i ==> is_digit(#[trigger] s@[k]),
        decreases n - i,
    {
        let c = s[i];
        let u = c as u32;
        if u < 48 || u > 57 {
            proof {
                assert(d[i - start] == c);
                assert(!all_digits(d));
            }
            return None;
        }
        let next: u128 = acc * 10 + (u - 48) as u128;
        proof {
            let p = d.subrange(0, i - start + 1);
            assert(p.drop_last() =~= d.subrange(0, i - start));
            assert(p.last() == c);
        }
        if next > bound {
            proof {
                if all_digits(d) {
                    lemma_digits_value_prefix(d, i - start + 1);
                }
            }
            return None;
        }
        acc = next;
        i = i + 1;
    }
    proof {
        assert(d.subrange(0, n - start) =~= d);
        assert forall|k: int| 0 <= k < d.len() implies is_digit(#[trigger] d[k]) by {
            assert(d[k] == s@[start + k]);
        }
    }
    if neg {
        Some((0i128 - acc as i128) as i64)
    } else {
        Some(acc as i64)
    }
}

/// The integer `s` denotes, if it fits an `i32`: what `s.parse::<i32>()`
/// gives when it succeeds.
pub fn parse_i32(s: &[char]) -> (r: Option<i32>)
    ensures
        r == (match int_in_range(s@, i32::MIN as int, i32::MAX as int) {
            Some(v) => Some(v as i32),
            None => None::<i32>,
        }),
{
    match parse_int_in(s, i32::MIN as i64, i32::MAX as i64) {
        Some(v) => Some(v as i32),
        None => None,
    }
}

/// The integer `s` denotes, if it fits an `isize`: what
/// `s.parse::<isize>()` gives when it succeeds.
pub fn parse_isize(s: &[char]) -> (r: Option<isize>)
    ensures
        r == (match int_in_range(s@, isize::MIN as int, isize::MAX as int) {
            Some(v) => Some(v as isize),
            None => None::<isize>,
        }),
{
    match parse_int_in(s, isize::MIN as i64, isize::MAX as i64) {
        Some(v) => Some(v as isize),
        None => None,
    }
}

/// The digit character for `d`.
fn digit_char_of(d: u64) -> (c: char)
    requires
        d < 10,
    ensures
        c == digit_char(d as nat),
{
    if d == 0 {
        '0'
    } else if d == 1 {
        '1'
    } else if d == 2 {
        '2'
    } else if d == 3 {
        '3'
    } else if d == 4 {
        '4'
    } else if d == 5 {
        '5'
    } else if d == 6 {
        '6'
    } else if d == 7 {
        '7'
    } else if d == 8 {
        '8'
    } else {
        '9'
    }
}

/// Appends the decimal digits of `m` to `out`.
fn push_digits(out: &mut Vec<char>, m: u64)
    ensures
        final(out)@ == old(out)@ + digits_of(m as nat),
    decreases m,
{
    if m >= 10 {
        push_digits(out, m / 10);
    }
    let c = digit_char_of(m % 10);
    out.push(c);
    proof {
        if m < 10 {
            assert(old(out)@ + digits_of(m as nat) =~= old(out)@.push(c));
        } else {
            assert(old(out)@ + digits_of(m as nat) =~= (old(out)@ + digits_of(
                (m / 10) as nat,
            )).push(c));
        }
    }
}

/// `n` written in decimal, as `n.to_string()` writes it.
pub fn decimal_chars(n: i64) -> (r: Vec<char>)
    ensures
        r@ == decimal(n as int),
{
    let mut out: Vec<char> = Vec::new();
    if n < 0 {
        out.push('-');
        let m: u64 = (0i128 - n as i128) as u64;
        push_digits(&mut out, m);
    } else {
        push_digits(&mut out, n as u64);
    }
    out
}

} // verus!
