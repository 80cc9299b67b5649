//! Decimal formatting and parsing of integers, as `Display`, `{:0w}` and
//! `FromStr` do it for Rust's integer types.

use vstd::prelude::*;
use crate::text::{append_chars, digit_char, digit_value, is_ascii_digit_char, make_digit};

verus! {

/// Decimal digits of a natural number, without leading zeros.
pub open spec fn nat_digits(n: nat) -> Seq<char>
    decreases n,
{
    if n < 10 {
        seq![digit_char(n as int)]
    } else {
        nat_digits(n / 10).push(digit_char((n % 10) as int))
    }
}

/// `Display` of an integer: a minus sign for negative values, then the digits.
pub open spec fn int_display(n: int) -> Seq<char> {
    if n < 0 {
        seq!['-'] + nat_digits((-n) as nat)
    } else {
        nat_digits(n as nat)
    }
}

/// `n` zero-padded to at least `width` characters, the sign first
/// (`format!("{:0width$}", n)`).
pub open spec fn int_padded(n: int, width: nat) -> Seq<char> {
    let sign: Seq<char> = if n < 0 { seq!['-'] } else { Seq::<char>::empty() };
    let digits = nat_digits(if n < 0 { (-n) as nat } else { n as nat });
    let fill: int = width - sign.len() - digits.len();
    sign + Seq::new(if fill > 0 { fill as nat } else { 0 }, |i: int| '0') + digits
}

/// The digits of a natural number are ASCII digits and there is at least one.
pub proof fn lemma_nat_digits_ascii(n: nat)
    ensures
        nat_digits(n).len() >= 1,
        forall|i: int| 0 <= i < nat_digits(n).len() ==> is_ascii_digit_char(
            #[trigger] nat_digits(n)[i],
        ),
    decreases n,
{
    if n >= 10 {
        lemma_nat_digits_ascii(n / 10);
    }
}

/// Appends the decimal digits of `n`.
pub fn push_digits(out: &mut Vec<char>, n: u64)
    ensures
        final(out)@ == old(out)@ + nat_digits(n as nat),
    decreases n,
{
    if n >= 10 {
        push_digits(out, n / 10);
    }
    let d = make_digit(n % 10);
    out.push(d);
    proof {
        if n >= 10 {
            assert(final(out)@ =~= old(out)@ + nat_digits(n as nat));
        } else {
            assert(final(out)@ =~= old(out)@ + nat_digits(n as nat));
        }
    }
}

/// Decimal representation of a signed integer (`i64::to_string`).
pub fn i64_to_chars(n: i64) -> (r: Vec<char>)
    ensures
        r@ == int_display(n as int),
{
    let mut r: Vec<char> = Vec::new();
    if n < 0 {
        r.push('-');
        let m: u64 = if n == i64::MIN {
            9223372036854775808u64
        } else {
            (-n) as u64
        };
        push_digits(&mut r, m);
    } else {
        push_digits(&mut r, n as u64);
    }
    assert(r@ =~= int_display(n as int));
    r
}

/// `format!("{:0width$}", n)` for an `i32`.
pub fn i32_padded(n: i32, width: usize) -> (r: Vec<char>)
    ensures
        r@ == int_padded(n as int, width as nat),
{
    let mut digits: Vec<char> = Vec::new();
    let m: u64 = if n < 0 {
        (0i64 - (n as i64)) as u64
    } else {
        n as u64
    };
    push_digits(&mut digits, m);
    assert(digits@ =~= nat_digits(m as nat));
    let mut r: Vec<char> = Vec::new();
    let sign_len: usize = if n < 0 {
        r.push('-');
        1
    } else {
        0
    };
    let ghost sign = r@;
    let fill: usize = if width > digits.len() && width - digits.len() > sign_len {
        width - digits.len() - sign_len
    } else {
        0
    };
    let mut k: usize = 0;
    while k < fill
        invariant
            k <= fill,
            r@ == sign + Seq::new(k as nat, |i: int| '0'),
        decreases fill - k,
    {
        r.push('0');
        k += 1;
        assert(r@ =~= sign + Seq::new(k as nat, |i: int| '0'));
    }
    append_chars(&mut r, digits.as_slice());
    assert(r@ =~= int_padded(n as int, width as nat));
    r
}

// ---------------------------------------------------------------------------
// Parsing
// ---------------------------------------------------------------------------

/// All characters are ASCII digits.
pub open spec fn all_digits(s: Seq<char>) -> bool {
    forall|i: int| 0 <= i < s.len() ==> is_ascii_digit_char(#[trigger] s[i])
}

/// The value of a string of decimal digits.
pub open spec fn digits_value(s: Seq<char>) -> nat
    decreases s.len(),
{
    if s.len() == 0 {
        0
    } else {
        (10 * digits_value(s.drop_last()) + digit_value(s.last())) as nat
    }
}

/// What `FromStr` accepts for a signed integer, before the range check:
/// an optional `+` or `-`, then at least one ASCII digit.
pub open spec fn signed_value(s: Seq<char>) -> Option<int> {
    if s.len() > 0 && (s[0] == '+' || s[0] == '-') {
        let rest = s.drop_first();
        if rest.len() > 0 && all_digits(rest) {
            Some(if s[0] == '-' { -digits_value(rest) } else { digits_value(rest) as int })
        } else {
            None
        }
    } else if s.len() > 0 && all_digits(s) {
        Some(digits_value(s) as int)
    } else {
        None
    }
}

/// What `FromStr` accepts for an unsigned integer, before the range check:
/// an optional `+`, then at least one ASCII digit.
pub open spec fn unsigned_value(s: Seq<char>) -> Option<int> {
    if s.len() > 0 && s[0] == '+' {
        let rest = s.drop_first();
        if rest.len() > 0 && all_digits(rest) {
            Some(digits_value(rest) as int)
        } else {
            None
        }
    } else if s.len() > 0 && all_digits(s) {
        Some(digits_value(s) as int)
    } else {
        None
    }
}

/// `s.parse::<i32>().ok()`.
pub open spec fn parse_i32_spec(s: Seq<char>) -> Option<i32> {
    match signed_value(s) {
        Some(v) => if i32::MIN <= v <= i32::MAX { Some(v as i32) } else { None },
        None => None,
    }
}

/// `s.parse::<u32>().ok()`.
pub open spec fn parse_u32_spec(s: Seq<char>) -> Option<u32> {
    match unsigned_value(s) {
        Some(v) => if v <= u32::MAX { Some(v as u32) } else { None },
        None => None,
    }
}

/// `s.parse::<usize>().ok()`.
pub open spec fn parse_usize_spec(s: Seq<char>) -> Option<usize> {
    match unsigned_value(s) {
        Some(v) => if v <= usize::MAX { Some(v as usize) } else { None },
        None => None,
    }
}

/// Taking one more digit multiplies the value by ten and adds the digit.
pub proof fn lemma_digits_value_step(s: Seq<char>, k: int)
    requires
        0 <= k < s.len(),
        is_ascii_digit_char(s[k]),
    ensures
        digits_value(s.take(k + 1)) == 10 * digits_value(s.take(k)) + digit_value(s[k]),
{
    assert(s.take(k + 1).drop_last() =~= s.take(k));
}

/// A prefix of a digit string has no larger value.
pub proof fn lemma_digits_value_prefix(s: Seq<char>, k: int)
    requires
        0 <= k <= s.len(),
        all_digits(s),
    ensures
        digits_value(s.take(k)) <= digits_value(s),
    decreases s.len() - k,
{
    if k < s.len() {
        lemma_digits_value_step(s, k);
        lemma_digits_value_prefix(s, k + 1);
    } else {
        assert(s.take(k) =~= s);
    }
}

/// The value of the digit string `s[from..]`, if it is at most `bound`.
fn digits_upto(s: &[char], from: usize, bound: u64) -> (r: Option<u64>)
    requires
        from <= s.len(),
    ensures
        all_digits(s@.skip(from as int)) && digits_value(s@.skip(from as int)) <= bound
            <==> r is Some,
        r matches Some(v) ==> v == digits_value(s@.skip(from as int)),
{
    let ghost t = s@.skip(from as int);
    let mut acc: u64 = 0;
    let mut i: usize = from;
    assert(t.take(0) =~= Seq::<char>::empty());
    while i < s.len()
        invariant
            from <= i <= s.len(),
            t == s@.skip(from as int),
            acc <= bound,
            all_digits(t.take(i - from)),
            acc == digits_value(t.take(i - from)),
        decreases s.len() - i,
    {
        let c = s[i];
        assert(t[i - from] == c);
        if !('0' <= c && c <= '9') {
            assert(!all_digits(t));
            return None;
        }
        proof {
            lemma_digits_value_step(t, i - from);
            assert forall|j: int| 0 <= j < i + 1 - from implies is_ascii_digit_char(
                #[trigger] t.take(i + 1 - from)[j],
            ) by {
                if j < i - from {
                    assert(t.take(i + 1 - from)[j] == t.take(i - from)[j]);
                }
            }
        }
        let d = (c as u32 - '0' as u32) as u64;
        let next = match acc.checked_mul(10) {
            Some(m) => m.checked_add(d),
            None => None,
        };
        i += 1;
        match next {
            Some(v) if v <= bound => {
                acc = v;
            },
            _ => {
                proof {
                    let k = i - from;
                    if all_digits(t) {
                        lemma_digits_value_prefix(t, k as int);
                    }
                }
                return None;
            },
        }
    }
    assert(t.take(s.len() - from) =~= t);
    Some(acc)
}

/// `s.parse::<i32>().ok()`.
pub fn parse_i32(s: &[char]) -> (r: Option<i32>)
    ensures
        r == parse_i32_spec(s@),
{
    if s.len() == 0 {
        return None;
    }
    let neg = s[0] == '-';
    let start: usize = if s[0] == '+' || s[0] == '-' { 1 } else { 0 };
    if start == 1 && s.len() == 1 {
        return None;
    }
    assert(start == 1 ==> s@.skip(1) =~= s@.drop_first());
    assert(start == 0 ==> s@.skip(0) =~= s@);
    match digits_upto(s, start, 2147483648u64) {
        None => None,
        Some(v) => {
            if neg {
                let x: i64 = 0i64 - (v as i64);
                Some(x as i32)
            } else if v <= 2147483647u64 {
                Some(v as i32)
            } else {
                None
            }
        }
    }
}

/// Shared by the unsigned parsers: the value if at most `bound`.
fn parse_unsigned_upto(s: &[char], bound: u64) -> (r: Option<u64>)
    ensures
        r matches Some(v) ==> unsigned_value(s@) == Some(v as int) && v <= bound,
        r is None ==> unsigned_value(s@) is None || unsigned_value(s@)->0 > bound,
{
    if s.len() == 0 {
        return None;
    }
    let start: usize = if s[0] == '+' { 1 } else { 0 };
    if start == 1 && s.len() == 1 {
        return None;
    }
    assert(start == 1 ==> s@.skip(1) =~= s@.drop_first());
    assert(start == 0 ==> s@.skip(0) =~= s@);
    digits_upto(s, start, bound)
}

/// `s.parse::<u32>().ok()`.
pub fn parse_u32(s: &[char]) -> (r: Option<u32>)
    ensures
        r == parse_u32_spec(s@),
{
    match parse_unsigned_upto(s, 4294967295u64) {
        Some(v) => Some(v as u32),
        None => None,
    }
}

/// `s.parse::<usize>().ok()`.
pub fn parse_usize(s: &[char]) -> (r: Option<usize>)
    ensures
        r == parse_usize_spec(s@),
{
    match parse_unsigned_upto(s, usize::MAX as u64) {
        Some(v) => Some(v as usize),
        None => None,
    }
}

/// `s.parse::<u64>().ok()`.
pub open spec fn parse_u64_spec(s: Seq<char>) -> Option<u64> {
    match unsigned_value(s) {
        Some(v) => if v <= u64::MAX { Some(v as u64) } else { None },
        None => None,
    }
}

/// `s.parse::<u64>().ok()`.
pub fn parse_u64(s: &[char]) -> (r: Option<u64>)
    ensures
        r == parse_u64_spec(s@),
{
    parse_unsigned_upto(s, u64::MAX)
}

/// Reading back the decimal digits of a natural number gives the number.
pub proof fn lemma_digits_read_back(n: nat)
    ensures
        digits_value(nat_digits(n)) == n,
    decreases n,
{
    let k = (n % 10) as int;
    assert(digit_value(digit_char(k)) == k);
    if n >= 10 {
        lemma_digits_read_back(n / 10);
        let d = nat_digits(n / 10).push(digit_char(k));
        assert(d.drop_last() =~= nat_digits(n / 10));
        assert(d.last() == digit_char(k));
        assert(nat_digits(n) == d);
        assert(digits_value(d) == 10 * digits_value(nat_digits(n / 10)) + k);
        assert(n == 10 * (n / 10) + k);
    } else {
        let d = seq![digit_char(n as int)];
        assert(d.drop_last() =~= Seq::<char>::empty());
        assert(digits_value(d.drop_last()) == 0);
        assert(k == n);
        assert(nat_digits(n) == d);
        assert(digits_value(d) == 10 * digits_value(d.drop_last()) + digit_value(d.last()));
    }
}

/// An integer's decimal text parses back to it: `Display` and `FromStr`
/// undo each other for every `i32`.
pub proof fn lemma_display_parses_back(n: i32)
    ensures
        parse_i32_spec(int_display(n as int)) == Some(n),
{
    let m: nat = if n < 0 { (-n) as nat } else { n as nat };
    lemma_digits_read_back(m);
    lemma_nat_digits_ascii(m);
    let ds = nat_digits(m);
    if n < 0 {
        let s = seq!['-'] + ds;
        assert(s.drop_first() =~= ds);
        assert(s[0] == '-');
    } else {
        assert(is_ascii_digit_char(ds[0]));
        assert(all_digits(ds));
    }
}

} // verus!
