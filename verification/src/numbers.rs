//! Decimal rendering and parsing of integers, as `format!("{}")`,
//! `format!("{:0w}")` and `str::parse::<i32>` do them.

use vstd::prelude::*;

verus! {

/// The ASCII digit for `d` (0 to 9).
pub open spec fn digit_char(d: int) -> char {
    if d == 0 { '0' }
    else if d == 1 { '1' }
    else if d == 2 { '2' }
    else if d == 3 { '3' }
    else if d == 4 { '4' }
    else if d == 5 { '5' }
    else if d == 6 { '6' }
    else if d == 7 { '7' }
    else if d == 8 { '8' }
    else { '9' }
}

/// The value of an ASCII digit character.
pub open spec fn digit_value(c: char) -> int {
    (c as int) - ('0' as int)
}

/// Whether `c` is one of `'0'..='9'`.
pub open spec fn is_digit(c: char) -> bool {
    '0' <= c && c <= '9'
}

/// The decimal digits of `n`, most significant first, with no leading zeros.
pub open spec fn decimal(n: nat) -> Seq<char>
    decreases n,
{
    if n < 10 {
        seq![digit_char(n as int)]
    } else {
        decimal(n / 10).push(digit_char((n % 10) as int))
    }
}

/// `n` in decimal with a leading `-` when negative, as `{}` prints an integer.
pub open spec fn signed_decimal(n: int) -> Seq<char> {
    if n < 0 {
        seq!['-'] + decimal((-n) as nat)
    } else {
        decimal(n as nat)
    }
}

/// `s` left-padded with `'0'` to at least `width` characters.
pub open spec fn zero_pad(s: Seq<char>, width: nat) -> Seq<char> {
    if s.len() < width {
        Seq::new((width - s.len()) as nat, |_i: int| '0') + s
    } else {
        s
    }
}

fn digit_of(d: u64) -> (c: char)
    requires
        d < 10,
    ensures
        c == digit_char(d as int),
{
    if d == 0 { '0' }
    else if d == 1 { '1' }
    else if d == 2 { '2' }
    else if d == 3 { '3' }
    else if d == 4 { '4' }
    else if d == 5 { '5' }
    else if d == 6 { '6' }
    else if d == 7 { '7' }
    else if d == 8 { '8' }
    else { '9' }
}

/// Decimal digits of an unsigned number.
pub fn decimal_of(n: u64) -> (r: Vec<char>)
    ensures
        r@ == decimal(n as nat),
{
    let mut acc: Vec<char> = Vec::new();
    let mut q: u64 = n;
    loop
        invariant
            decimal(n as nat) == decimal(q as nat) + acc@,
        decreases q,
    {
        let d = digit_of(q % 10);
        acc.insert(0, d);
        if q < 10 {
            assert(acc@ =~= decimal(q as nat) + acc@.drop_first());
            assert(decimal(n as nat) =~= acc@);
            return acc;
        }
        proof {
            assert(decimal(q as nat) == decimal((q / 10) as nat).push(digit_char((q % 10) as int)));
            assert(decimal(q as nat) + acc@.drop_first() =~= decimal((q / 10) as nat) + acc@);
        }
        q = q / 10;
    }
}

/// Decimal text of a signed number, with `-` for negatives.
pub fn signed_decimal_of(n: i64) -> (r: Vec<char>)
    requires
        n > i64::MIN,
    ensures
        r@ == signed_decimal(n as int),
{
    if n < 0 {
        let m = (-n) as u64;
        let digits = decimal_of(m);
        let mut r: Vec<char> = Vec::new();
        r.push('-');
        let k = digits.len();
        for i in 0..k
            invariant
                k == digits@.len(),
                r@ == seq!['-'] + digits@.take(i as int),
        {
            r.push(digits[i]);
            assert(digits@.take(i + 1) == digits@.take(i as int).push(digits@[i as int]));
            assert(r@ =~= seq!['-'] + digits@.take(i + 1));
        }
        assert(digits@.take(k as int) == digits@);
        r
    } else {
        decimal_of(n as u64)
    }
}

/// Left-pads with `'0'` to at least `width` characters.
pub fn zero_padded(s: Vec<char>, width: usize) -> (r: Vec<char>)
    ensures
        r@ == zero_pad(s@, width as nat),
{
    if s.len() >= width {
        return s;
    }
    let pad = width - s.len();
    let mut r: Vec<char> = Vec::new();
    for i in 0..pad
        invariant
            r@ == Seq::new(i as nat, |_i: int| '0'),
    {
        r.push('0');
        assert(r@ =~= Seq::new((i + 1) as nat, |_i: int| '0'));
    }
    let k = s.len();
    let ghost zeros = r@;
    for i in 0..k
        invariant
            k == s@.len(),
            r@ == zeros + s@.take(i as int),
    {
        r.push(s[i]);
        assert(s@.take(i + 1) == s@.take(i as int).push(s@[i as int]));
        assert(r@ =~= zeros + s@.take(i + 1));
    }
    assert(s@.take(k as int) == s@);
    r
}

/// Whether every character of `s` is an ASCII digit.
pub open spec fn all_digits(s: Seq<char>) -> bool {
    forall|i: int| 0 <= i < s.len() ==> is_digit(#[trigger] s[i])
}

/// The number written by the decimal digits `s`.
pub open spec fn digits_value(s: Seq<char>) -> int
    decreases s.len(),
{
    if s.len() == 0 {
        0
    } else {
        10 * digits_value(s.drop_last()) + digit_value(s.last())
    }
}

/// What `str::parse::<i32>` gives: an optional `+` or `-` sign followed by at
/// least one ASCII digit, and a value within the range of `i32`; anything else
/// is an error (`None`).
pub open spec fn parse_i32_spec(s: Seq<char>) -> Option<i32> {
    let signed = s.len() > 0 && (s[0] == '+' || s[0] == '-');
    let body = if signed { s.drop_first() } else { s };
    let value = if signed && s[0] == '-' { -digits_value(body) } else { digits_value(body) };
    if body.len() > 0 && all_digits(body) && i32::MIN <= value <= i32::MAX {
        Some(value as i32)
    } else {
        None
    }
}

/// Decimal digits denote a non-negative number.
pub proof fn lemma_digits_value_nonneg(s: Seq<char>)
    requires
        all_digits(s),
    ensures
        digits_value(s) >= 0,
    decreases s.len(),
{
    if s.len() > 0 {
        assert(all_digits(s.drop_last()));
        assert(is_digit(s[s.len() - 1]));
        lemma_digits_value_nonneg(s.drop_last());
    }
}

/// Parses an `i32` exactly as `str::parse::<i32>` does.
pub fn parse_i32(s: &[char]) -> (r: Option<i32>)
    ensures
        r == parse_i32_spec(s@),
{
    let n = s.len();
    let signed = n > 0 && (s[0] == '+' || s[0] == '-');
    let negative = signed && s[0] == '-';
    let start: usize = if signed { 1 } else { 0 };
    let ghost body = if signed { s@.drop_first() } else { s@ };
    if start >= n {
        return None;
    }
    // Values beyond this bound are out of range for either sign.
    let cap: i64 = 2147483649;
    let mut v: i64 = 0;
    let mut i: usize = start;
    while i < n
        invariant
            n == s@.len(),
            start <= i <= n,
            signed == (s@.len() > 0 && (s@[0] == '+' || s@[0] == '-')),
            negative == (signed && s@[0] == '-'),
            start == (if signed { 1usize } else { 0usize }),
            body == (if signed { s@.drop_first() } else { s@ }),
            body == s@.skip(start as int),
            all_digits(s@.subrange(start as int, i as int)),
            0 <= v <= cap,
            cap == 2147483649,
            v == (if digits_value(s@.subrange(start as int, i as int)) < cap {
                digits_value(s@.subrange(start as int, i as int))
            } else {
                cap as int
            }),
        decreases n - i,
    {
        let c = s[i];
        if !('0' <= c && c <= '9') {
            assert(body[i - start] == c);
            assert(!is_digit(body[i - start]));
            assert(!all_digits(body));
            return None;
        }
        let d = (c as u32 - '0' as u32) as i64;
        let ghost prev = s@.subrange(start as int, i as int);
        let ghost next = s@.subrange(start as int, i + 1);
        proof {
            assert(next.drop_last() == prev);
            assert(next.last() == c);
            lemma_digits_value_nonneg(prev);
            assert(all_digits(next));
        }
        let w = v * 10 + d;
        v = if w < cap { w } else { cap };
        i = i + 1;
    }
    assert(s@.subrange(start as int, n as int) == body);
    proof {
        lemma_digits_value_nonneg(body);
    }
    if negative {
        if v > 2147483648 {
            None
        } else {
            Some((-v) as i32)
        }
    } else {
        if v > 2147483647 {
            None
        } else {
            Some(v as i32)
        }
    }
}

} // verus!
