//! Calendar-day arithmetic on `YYYY-MM-DD` strings.

use vstd::prelude::*;
use crate::numbers::{all_digits, decimal, digit_char, digit_value, digits_value, is_digit, decimal_of, lemma_digits_value_nonneg, parse_i32, parse_i32_spec, zero_pad, zero_padded};
use crate::text::{
    append_chars, chars_of, lemma_split_at_separator, lemma_split_nonempty, lemma_split_without_separator, split_any,
    split_spec, string_of, views,
};

verus! {

/// Gregorian leap-year rule.
pub open spec fn is_leap_year(y: int) -> bool {
    (y % 4 == 0 && y % 100 != 0) || y % 400 == 0
}

/// Days in month `m` of year `y`; a month number outside 1..=12 counts as 30 days.
pub open spec fn days_in_month(y: int, m: int) -> int {
    if m == 1 || m == 3 || m == 5 || m == 7 || m == 8 || m == 10 || m == 12 {
        31
    } else if m == 4 || m == 6 || m == 9 || m == 11 {
        30
    } else if m == 2 {
        if is_leap_year(y) { 29 } else { 28 }
    } else {
        30
    }
}

/// The numbers that parse as `i32` among the `-`-separated pieces, in order
/// (the pieces that do not parse are skipped).
pub open spec fn parsed_pieces(pieces: Seq<Seq<char>>) -> Seq<i32>
    decreases pieces.len(),
{
    if pieces.len() == 0 {
        Seq::empty()
    } else {
        let rest = parsed_pieces(pieces.drop_last());
        match parse_i32_spec(pieces.last()) {
            Some(v) => rest.push(v),
            None => rest,
        }
    }
}

/// The numeric fields of a date string.
pub open spec fn date_fields(s: Seq<char>) -> Seq<i32> {
    parsed_pieces(split_spec(s, seq!['-']))
}

/// The day after `(y, m, d)`, with months outside 1..=12 treated as 30 days long.
pub open spec fn day_after(y: int, m: int, d: int) -> (int, int, int) {
    if d + 1 > days_in_month(y, m) {
        if m + 1 > 12 {
            (y + 1, 1, 1)
        } else {
            (y, m + 1, 1)
        }
    } else {
        (y, m, d + 1)
    }
}

/// `YYYY-MM-DD` with each field zero-padded to at least 4, 2 and 2 digits.
pub open spec fn format_date(y: nat, m: nat, d: nat) -> Seq<char> {
    zero_pad(decimal(y), 4) + seq!['-'] + zero_pad(decimal(m), 2) + seq!['-'] + zero_pad(decimal(d), 2)
}

/// Whether stepping the parsed fields stays within `i32` (the increments
/// overflow otherwise, and `next_day` panics there).
pub open spec fn next_day_defined(s: Seq<char>) -> bool {
    let f = date_fields(s);
    f.len() == 3 ==> {
        let (y, m, d) = (f[0] as int, f[1] as int, f[2] as int);
        &&& d < i32::MAX
        &&& d + 1 > days_in_month(y, m) ==> m < i32::MAX
        &&& (d + 1 > days_in_month(y, m) && m + 1 > 12) ==> y < i32::MAX
    }
}

/// What `next_day` returns: the following day when the string holds exactly
/// three numeric fields, and the string itself otherwise.
pub open spec fn next_day_spec(s: Seq<char>) -> Seq<char> {
    let f = date_fields(s);
    if f.len() == 3 {
        let t = day_after(f[0] as int, f[1] as int, f[2] as int);
        format_date(t.0 as nat, t.1 as nat, t.2 as nat)
    } else {
        s
    }
}

/// A character sequence holds no `-`.
pub open spec fn no_dash(s: Seq<char>) -> bool {
    forall|i: int| 0 <= i < s.len() ==> s[i] != '-'
}

proof fn lemma_split_pieces_no_dash(s: Seq<char>)
    ensures
        forall|k: int| 0 <= k < split_spec(s, seq!['-']).len() ==> no_dash(#[trigger] split_spec(s, seq!['-'])[k]),
    decreases s.len(),
{
    if s.len() > 0 {
        lemma_split_pieces_no_dash(s.drop_last());
        lemma_split_nonempty(s.drop_last(), seq!['-']);
        let r = split_spec(s.drop_last(), seq!['-']);
        if !seq!['-'].contains(s.last()) {
            assert(s.last() != '-') by {
                if s.last() == '-' {
                    assert(seq!['-'][0] == '-');
                }
            }
            assert(no_dash(r.last()));
            assert(no_dash(r.last().push(s.last())));
        } else {
            assert(no_dash(Seq::<char>::empty()));
        }
    }
}

proof fn lemma_parse_no_dash_nonneg(s: Seq<char>)
    requires
        no_dash(s),
    ensures
        parse_i32_spec(s) matches Some(v) ==> v >= 0,
{
    let signed = s.len() > 0 && (s[0] == '+' || s[0] == '-');
    let body = if signed { s.drop_first() } else { s };
    if parse_i32_spec(s) is Some {
        lemma_digits_value_nonneg(body);
    }
}

proof fn lemma_parsed_pieces_nonneg(pieces: Seq<Seq<char>>)
    requires
        forall|k: int| 0 <= k < pieces.len() ==> no_dash(#[trigger] pieces[k]),
    ensures
        forall|k: int| 0 <= k < parsed_pieces(pieces).len() ==> #[trigger] parsed_pieces(pieces)[k] >= 0,
    decreases pieces.len(),
{
    if pieces.len() > 0 {
        let init = pieces.drop_last();
        assert forall|k: int| 0 <= k < init.len() implies no_dash(#[trigger] init[k]) by {
            assert(init[k] == pieces[k]);
        }
        lemma_parsed_pieces_nonneg(init);
        assert(no_dash(pieces[pieces.len() - 1]));
        lemma_parse_no_dash_nonneg(pieces.last());
        let rest = parsed_pieces(init);
        match parse_i32_spec(pieces.last()) {
            Some(v) => {
                assert forall|k: int| 0 <= k < rest.push(v).len() implies #[trigger] rest.push(v)[k] >= 0 by {
                    if k < rest.len() {
                        assert(rest.push(v)[k] == rest[k]);
                    }
                }
            },
            None => {},
        }
    }
}

/// Every numeric field of a date string is non-negative (a `-` separates fields,
/// so no field can carry a minus sign).
pub proof fn lemma_date_fields_nonneg(s: Seq<char>)
    ensures
        forall|k: int| 0 <= k < date_fields(s).len() ==> #[trigger] date_fields(s)[k] >= 0,
{
    lemma_split_pieces_no_dash(s);
    lemma_parsed_pieces_nonneg(split_spec(s, seq!['-']));
}

fn is_leap(y: i32) -> (r: bool)
    requires
        y >= 0,
    ensures
        r == is_leap_year(y as int),
{
    (y % 4 == 0 && y % 100 != 0) || y % 400 == 0
}

fn month_length(y: i32, m: i32) -> (r: i32)
    requires
        y >= 0,
    ensures
        r == days_in_month(y as int, m as int),
{
    if m == 1 || m == 3 || m == 5 || m == 7 || m == 8 || m == 10 || m == 12 {
        31
    } else if m == 4 || m == 6 || m == 9 || m == 11 {
        30
    } else if m == 2 {
        if is_leap(y) { 29 } else { 28 }
    } else {
        30
    }
}

/// Renders `YYYY-MM-DD` with zero padding, as `format!("{y:04}-{m:02}-{d:02}")`.
pub fn render_date(y: i32, m: i32, d: i32) -> (r: String)
    requires
        y >= 0,
        m >= 0,
        d >= 0,
    ensures
        r@ == format_date(y as nat, m as nat, d as nat),
{
    let mut out: Vec<char> = zero_padded(decimal_of(y as u64), 4);
    out.push('-');
    let mm = zero_padded(decimal_of(m as u64), 2);
    append_chars(&mut out, mm.as_slice());
    out.push('-');
    let dd = zero_padded(decimal_of(d as u64), 2);
    append_chars(&mut out, dd.as_slice());
    assert(out@ =~= format_date(y as nat, m as nat, d as nat));
    string_of(out.as_slice())
}

/// The `-`-separated pieces of `date` that parse as `i32`, in order.
fn date_parts(date: &str) -> (parts: Vec<i32>)
    ensures
        parts@ == date_fields(date@),
{
    let chars = chars_of(date);
    let seps: Vec<char> = vec!['-'];
    assert(seps@ =~= seq!['-']);
    let pieces = split_any(chars.as_slice(), seps.as_slice());
    let ghost pv = views(pieces@);
    let mut parts: Vec<i32> = Vec::new();
    let np = pieces.len();
    for i in 0..np
        invariant
            np == pieces@.len(),
            pv == views(pieces@),
            pv == split_spec(date@, seq!['-']),
            parts@ == parsed_pieces(pv.take(i as int)),
    {
        let parsed = parse_i32(pieces[i].as_slice());
        proof {
            assert(pv.take(i + 1).drop_last() == pv.take(i as int));
            assert(pv.take(i + 1).last() == pieces@[i as int]@);
        }
        match parsed {
            Some(v) => {
                parts.push(v);
            },
            None => {},
        }
    }
    assert(pv.take(np as int) == pv);
    parts
}

/// Whether `next_day` can step this date string without overflowing `i32`.
pub fn next_day_in_range(date: &str) -> (r: bool)
    ensures
        r == next_day_defined(date@),
{
    let parts = date_parts(date);
    if parts.len() != 3 {
        return true;
    }
    proof {
        lemma_date_fields_nonneg(date@);
        assert(parts@[0] >= 0 && parts@[1] >= 0 && parts@[2] >= 0);
    }
    let y = parts[0];
    let m = parts[1];
    let d = parts[2];
    if d == i32::MAX {
        return false;
    }
    if d + 1 > month_length(y, m) {
        if m == i32::MAX {
            return false;
        }
        if m + 1 > 12 && y == i32::MAX {
            return false;
        }
    }
    true
}

/// Add one calendar day to a `"YYYY-MM-DD"` string. The `-`-separated pieces
/// that parse as `i32` are the fields; with exactly three of them the result is
/// the next day, zero-padded, and otherwise the input comes back unchanged.
pub fn next_day(date: &str) -> (r: String)
    requires
        next_day_defined(date@),
    ensures
        r@ == next_day_spec(date@),
{
    let parts = date_parts(date);
    if parts.len() != 3 {
        return String::from_str(date);
    }
    proof {
        lemma_date_fields_nonneg(date@);
        assert(parts@[0] >= 0 && parts@[1] >= 0 && parts@[2] >= 0);
    }
    let mut y = parts[0];
    let mut m = parts[1];
    let mut d = parts[2];
    d = d + 1;
    if d > month_length(y, m) {
        d = 1;
        m = m + 1;
        if m > 12 {
            m = 1;
            y = y + 1;
        }
    }
    render_date(y, m, d)
}

/// A real calendar date: month 1..=12 and day within that month.
pub open spec fn valid_date(y: int, m: int, d: int) -> bool {
    1 <= m <= 12 && 1 <= d <= days_in_month(y, m)
}

/// Lexicographic order on `(year, month, day)`.
pub open spec fn date_before(a: (int, int, int), b: (int, int, int)) -> bool {
    a.0 < b.0 || (a.0 == b.0 && (a.1 < b.1 || (a.1 == b.1 && a.2 < b.2)))
}

/// The day after a real date is a real date, it comes later, and no real date
/// lies between the two: `day_after` is the calendar successor.
pub proof fn law_day_after_is_successor(y: int, m: int, d: int)
    requires
        valid_date(y, m, d),
    ensures
        valid_date(day_after(y, m, d).0, day_after(y, m, d).1, day_after(y, m, d).2),
        date_before((y, m, d), day_after(y, m, d)),
        forall|y2: int, m2: int, d2: int|
            valid_date(y2, m2, d2) && date_before((y, m, d), (y2, m2, d2)) ==> !date_before(
                (y2, m2, d2),
                day_after(y, m, d),
            ),
{
}

proof fn lemma_split_no_sep(s: Seq<char>)
    requires
        no_dash(s),
    ensures
        split_spec(s, seq!['-']) == seq![s],
{
    assert forall|i: int| 0 <= i < s.len() implies !seq!['-'].contains(#[trigger] s[i]) by {
        if seq!['-'].contains(s[i]) {
            let k = choose|k: int| 0 <= k < 1 && seq!['-'][k] == s[i];
            assert(s[i] != '-');
        }
    }
    lemma_split_without_separator(s, seq!['-']);
}

proof fn lemma_split_at_sep(p: Seq<char>, q: Seq<char>)
    ensures
        split_spec(p + seq!['-'] + q, seq!['-']) == split_spec(p, seq!['-']) + split_spec(q, seq!['-']),
{
    assert(seq!['-'].contains('-')) by {
        assert(seq!['-'][0] == '-');
    }
    lemma_split_at_separator(p, '-', q, seq!['-']);
}

proof fn lemma_digit_roundtrip(k: int)
    requires
        0 <= k < 10,
    ensures
        digit_value(digit_char(k)) == k,
        is_digit(digit_char(k)),
        digit_char(k) != '-',
        digit_char(k) != '+',
{
}

proof fn lemma_decimal_digits(n: nat)
    ensures
        all_digits(decimal(n)),
        digits_value(decimal(n)) == n,
        decimal(n).len() >= 1,
    decreases n,
{
    if n < 10 {
        lemma_digit_roundtrip(n as int);
        assert(decimal(n).drop_last() =~= Seq::<char>::empty());
        assert(decimal(n)[0] == digit_char(n as int));
        assert(digits_value(decimal(n)) == 10 * digits_value(Seq::<char>::empty()) + digit_value(digit_char(n as int)));
    } else {
        lemma_decimal_digits(n / 10);
        lemma_digit_roundtrip((n % 10) as int);
        let s = decimal(n);
        assert(s.drop_last() == decimal(n / 10));
        assert(s.last() == digit_char((n % 10) as int));
        assert(digits_value(s) == 10 * digits_value(decimal(n / 10)) + digit_value(digit_char((n % 10) as int)));
        assert(10 * (n / 10) + n % 10 == n);
        assert forall|i: int| 0 <= i < s.len() implies is_digit(#[trigger] s[i]) by {
            if i < s.len() - 1 {
                assert(s[i] == decimal(n / 10)[i]);
            }
        }
    }
}

proof fn lemma_zeros_value(z: Seq<char>)
    requires
        forall|i: int| 0 <= i < z.len() ==> z[i] == '0',
    ensures
        digits_value(z) == 0,
    decreases z.len(),
{
    if z.len() > 0 {
        lemma_zeros_value(z.drop_last());
    }
}

proof fn lemma_zero_prefix_value(z: Seq<char>, s: Seq<char>)
    requires
        forall|i: int| 0 <= i < z.len() ==> z[i] == '0',
    ensures
        digits_value(z + s) == digits_value(s),
    decreases s.len(),
{
    if s.len() == 0 {
        assert(z + s == z);
        lemma_zeros_value(z);
    } else {
        lemma_zero_prefix_value(z, s.drop_last());
        assert((z + s).drop_last() == z + s.drop_last());
        assert((z + s).last() == s.last());
    }
}

proof fn lemma_padded_decimal(n: nat, w: nat)
    ensures
        all_digits(zero_pad(decimal(n), w)),
        no_dash(zero_pad(decimal(n), w)),
        digits_value(zero_pad(decimal(n), w)) == n,
        zero_pad(decimal(n), w).len() >= 1,
{
    lemma_decimal_digits(n);
    let s = decimal(n);
    let p = zero_pad(s, w);
    if s.len() < w {
        let z = Seq::new((w - s.len()) as nat, |_i: int| '0');
        assert(p == z + s);
        lemma_zero_prefix_value(z, s);
        assert forall|i: int| 0 <= i < p.len() implies is_digit(#[trigger] p[i]) by {
            if i >= z.len() {
                assert(p[i] == s[i - z.len()]);
            }
        }
    }
    assert forall|i: int| 0 <= i < p.len() implies p[i] != '-' by {
        assert(is_digit(p[i]));
    }
}

proof fn lemma_parse_padded(n: nat, w: nat)
    requires
        n <= i32::MAX,
    ensures
        parse_i32_spec(zero_pad(decimal(n), w)) == Some(n as i32),
{
    lemma_padded_decimal(n, w);
    let p = zero_pad(decimal(n), w);
    assert(is_digit(p[0]));
}

/// The fields read back from a rendered date are the ones it was rendered from.
pub proof fn lemma_date_fields_of_format(y: nat, m: nat, d: nat)
    requires
        y <= i32::MAX,
        m <= i32::MAX,
        d <= i32::MAX,
    ensures
        date_fields(format_date(y, m, d)) == seq![y as i32, m as i32, d as i32],
{
    let a = zero_pad(decimal(y), 4);
    let b = zero_pad(decimal(m), 2);
    let c = zero_pad(decimal(d), 2);
    lemma_padded_decimal(y, 4);
    lemma_padded_decimal(m, 2);
    lemma_padded_decimal(d, 2);
    lemma_parse_padded(y, 4);
    lemma_parse_padded(m, 2);
    lemma_parse_padded(d, 2);
    let sep = seq!['-'];
    assert(format_date(y, m, d) == a + sep + (b + sep + c));
    lemma_split_at_sep(a, b + sep + c);
    lemma_split_at_sep(b, c);
    lemma_split_no_sep(a);
    lemma_split_no_sep(b);
    lemma_split_no_sep(c);
    let pieces = split_spec(format_date(y, m, d), sep);
    assert(pieces =~= seq![a, b, c]);
    assert(pieces.drop_last() =~= seq![a, b]);
    assert(pieces.drop_last().drop_last() =~= seq![a]);
    assert(pieces.drop_last().drop_last().drop_last() =~= Seq::<Seq<char>>::empty());
    assert(parsed_pieces(seq![a]) =~= seq![y as i32]) by {
        assert(seq![a].drop_last() =~= Seq::<Seq<char>>::empty());
        assert(seq![a].last() == a);
        assert(parsed_pieces(Seq::<Seq<char>>::empty()) == Seq::<i32>::empty());
        assert(parse_i32_spec(a) == Some(y as i32));
    }
    assert(parsed_pieces(seq![a, b]) =~= seq![y as i32, m as i32]) by {
        assert(seq![a, b].drop_last() =~= seq![a]);
        assert(seq![a, b].last() == b);
    }
    assert(parsed_pieces(pieces) =~= seq![y as i32, m as i32, d as i32]);
}

/// Stepping a rendered real date gives the rendering of the next calendar day:
/// for every year from 0 up to (not including) `i32::MAX`, `next_day` accepts
/// the string and returns the successor date in the same format.
pub proof fn law_next_day_of_rendered_date(y: nat, m: nat, d: nat)
    requires
        y < i32::MAX,
        valid_date(y as int, m as int, d as int),
    ensures
        next_day_defined(format_date(y, m, d)),
        next_day_spec(format_date(y, m, d)) == format_date(
            day_after(y as int, m as int, d as int).0 as nat,
            day_after(y as int, m as int, d as int).1 as nat,
            day_after(y as int, m as int, d as int).2 as nat,
        ),
{
    lemma_date_fields_of_format(y, m, d);
}

/// The date `n` days after `(y, m, d)`.
pub open spec fn days_after(y: int, m: int, d: int, n: nat) -> (int, int, int)
    decreases n,
{
    if n == 0 {
        (y, m, d)
    } else {
        let t = day_after(y, m, d);
        days_after(t.0, t.1, t.2, (n - 1) as nat)
    }
}

/// Days in year `y`.
pub open spec fn days_in_year(y: int) -> int {
    if is_leap_year(y) { 366 } else { 365 }
}

/// The days from the first of month `m` to the end of year `y`.
pub open spec fn days_from_month(y: int, m: int) -> int
    decreases 13 - m,
{
    if m > 12 || m < 1 {
        0
    } else {
        days_in_month(y, m) + days_from_month(y, m + 1)
    }
}

proof fn lemma_days_after_split(y: int, m: int, d: int, a: nat, b: nat)
    ensures
        days_after(y, m, d, a + b) == ({
            let t = days_after(y, m, d, a);
            days_after(t.0, t.1, t.2, b)
        }),
    decreases a,
{
    if a > 0 {
        let t = day_after(y, m, d);
        lemma_days_after_split(t.0, t.1, t.2, (a - 1) as nat, b);
        assert((a + b - 1) as nat == ((a - 1) as nat + b) as nat);
    }
}

proof fn lemma_days_within_month(y: int, m: int, d: int, k: nat)
    requires
        valid_date(y, m, d),
        d + k <= days_in_month(y, m),
    ensures
        days_after(y, m, d, k) == (y, m, d + k),
    decreases k,
{
    if k > 0 {
        lemma_days_within_month(y, m, d + 1, (k - 1) as nat);
    }
}

proof fn lemma_days_through_month(y: int, m: int)
    requires
        1 <= m <= 12,
    ensures
        days_after(y, m, 1, days_in_month(y, m) as nat) == (if m < 12 { (y, m + 1, 1int) } else { (y + 1, 1int, 1int) }),
{
    let dim = days_in_month(y, m);
    lemma_days_within_month(y, m, 1, (dim - 1) as nat);
    lemma_days_after_split(y, m, 1, (dim - 1) as nat, 1);
    assert(((dim - 1) as nat + 1) as nat == dim as nat);
    let last = days_after(y, m, dim, 1);
    assert(last == days_after(day_after(y, m, dim).0, day_after(y, m, dim).1, day_after(y, m, dim).2, 0));
}

proof fn lemma_days_through_rest_of_year(y: int, m: int)
    requires
        1 <= m <= 12,
    ensures
        days_from_month(y, m) >= 0,
        days_after(y, m, 1, days_from_month(y, m) as nat) == (y + 1, 1int, 1int),
    decreases 13 - m,
{
    lemma_days_through_month(y, m);
    if m < 12 {
        lemma_days_through_rest_of_year(y, m + 1);
        lemma_days_after_split(y, m, 1, days_in_month(y, m) as nat, days_from_month(y, m + 1) as nat);
        assert((days_in_month(y, m) as nat + days_from_month(y, m + 1) as nat) as nat == days_from_month(y, m) as nat);
    } else {
        assert(days_from_month(y, 13) == 0);
        assert(days_from_month(y, 12) == days_in_month(y, 12));
    }
}

/// Stepping one day at a time from New Year's Day for as many days as the
/// year has (366 in a leap year, 365 otherwise) reaches the next New Year's Day.
pub proof fn law_year_of_days(y: int)
    ensures
        days_after(y, 1, 1, days_in_year(y) as nat) == (y + 1, 1int, 1int),
{
    lemma_days_through_rest_of_year(y, 1);
    reveal_with_fuel(days_from_month, 13);
    assert(days_from_month(y, 1) == days_in_year(y));
}

/// `s` stepped `n` times by `next_day`.
pub open spec fn next_day_steps(s: Seq<char>, n: nat) -> Seq<char>
    decreases n,
{
    if n == 0 {
        s
    } else {
        next_day_steps(next_day_spec(s), (n - 1) as nat)
    }
}

proof fn lemma_days_after_year_grows(y: int, m: int, d: int, n: nat)
    ensures
        days_after(y, m, d, n).0 >= y,
    decreases n,
{
    if n > 0 {
        let t = day_after(y, m, d);
        lemma_days_after_year_grows(t.0, t.1, t.2, (n - 1) as nat);
    }
}

/// Stepping a rendered real date `n` times with `next_day` gives the rendering
/// of the date `n` days later, as long as the year stays below `i32::MAX`.
pub proof fn law_next_day_steps(y: nat, m: nat, d: nat, n: nat)
    requires
        valid_date(y as int, m as int, d as int),
        days_after(y as int, m as int, d as int, n).0 < i32::MAX,
    ensures
        ({
            let t = days_after(y as int, m as int, d as int, n);
            next_day_steps(format_date(y, m, d), n) == format_date(t.0 as nat, t.1 as nat, t.2 as nat)
        }),
    decreases n,
{
    if n > 0 {
        lemma_days_after_year_grows(y as int, m as int, d as int, n);
        law_next_day_of_rendered_date(y, m, d);
        law_day_after_is_successor(y as int, m as int, d as int);
        let t = day_after(y as int, m as int, d as int);
        lemma_days_after_year_grows(t.0, t.1, t.2, (n - 1) as nat);
        law_next_day_steps(t.0 as nat, t.1 as nat, t.2 as nat, (n - 1) as nat);
    }
}

/// `next_day` applied 365 times to `YYYY-01-01` of a common year, or 366
/// times in a leap year, gives `YYYY-01-01` of the next year (for example
/// 2023-01-01 to 2024-01-01 in 365 steps, 2024-01-01 to 2025-01-01 in 366).
pub proof fn law_next_day_through_a_year(y: nat)
    requires
        y + 1 < i32::MAX,
    ensures
        next_day_steps(format_date(y, 1, 1), days_in_year(y as int) as nat) == format_date(y + 1, 1, 1),
{
    law_year_of_days(y as int);
    law_next_day_steps(y, 1, 1, days_in_year(y as int) as nat);
}

/// The two year lengths worked through by hand.
pub proof fn law_next_day_2023_and_2024()
    ensures
        next_day_steps(format_date(2023, 1, 1), 365) == format_date(2024, 1, 1),
        next_day_steps(format_date(2024, 1, 1), 366) == format_date(2025, 1, 1),
{
    law_next_day_through_a_year(2023);
    law_next_day_through_a_year(2024);
    assert(days_in_year(2023) == 365);
    assert(days_in_year(2024) == 366);
}

/// Month lengths as `next_day` walks them, for every year below `i32::MAX`:
/// January, March, May, July, August, October and December have 31 days;
/// April, June, September and November 30; February 29 in a leap year (a
/// multiple of 4 that is not a multiple of 100, or a multiple of 400) and 28
/// otherwise. Each month's last day is followed by the first of the next month
/// and the day before it by that last day; December's last day by New Year's
/// Day.
pub proof fn law_next_day_month_lengths(y: nat)
    requires
        y + 1 < i32::MAX,
    ensures
        ({
            let leap = (y % 4 == 0 && y % 100 != 0) || y % 400 == 0;
            &&& next_day_defined(format_date(y, 9, 30))
            &&& next_day_defined(format_date(y, 8, 30))
            &&& next_day_spec(format_date(y, 1, 30)) == format_date(y, 1, 31)
            &&& next_day_spec(format_date(y, 1, 31)) == format_date(y, 2, 1)
            &&& next_day_spec(format_date(y, 3, 30)) == format_date(y, 3, 31)
            &&& next_day_spec(format_date(y, 3, 31)) == format_date(y, 4, 1)
            &&& next_day_spec(format_date(y, 4, 29)) == format_date(y, 4, 30)
            &&& next_day_spec(format_date(y, 4, 30)) == format_date(y, 5, 1)
            &&& next_day_spec(format_date(y, 5, 30)) == format_date(y, 5, 31)
            &&& next_day_spec(format_date(y, 5, 31)) == format_date(y, 6, 1)
            &&& next_day_spec(format_date(y, 6, 29)) == format_date(y, 6, 30)
            &&& next_day_spec(format_date(y, 6, 30)) == format_date(y, 7, 1)
            &&& next_day_spec(format_date(y, 7, 30)) == format_date(y, 7, 31)
            &&& next_day_spec(format_date(y, 7, 31)) == format_date(y, 8, 1)
            &&& next_day_spec(format_date(y, 8, 30)) == format_date(y, 8, 31)
            &&& next_day_spec(format_date(y, 8, 31)) == format_date(y, 9, 1)
            &&& next_day_spec(format_date(y, 9, 29)) == format_date(y, 9, 30)
            &&& next_day_spec(format_date(y, 9, 30)) == format_date(y, 10, 1)
            &&& next_day_spec(format_date(y, 10, 30)) == format_date(y, 10, 31)
            &&& next_day_spec(format_date(y, 10, 31)) == format_date(y, 11, 1)
            &&& next_day_spec(format_date(y, 11, 29)) == format_date(y, 11, 30)
            &&& next_day_spec(format_date(y, 11, 30)) == format_date(y, 12, 1)
            &&& next_day_spec(format_date(y, 12, 30)) == format_date(y, 12, 31)
            &&& next_day_spec(format_date(y, 2, 28)) == (if leap { format_date(y, 2, 29) } else { format_date(y, 3, 1) })
            &&& leap ==> next_day_spec(format_date(y, 2, 29)) == format_date(y, 3, 1)
            &&& next_day_spec(format_date(y, 12, 31)) == format_date(y + 1, 1, 1)
        }),
{
    law_next_day_of_rendered_date(y, 1, 30);
    law_next_day_of_rendered_date(y, 1, 31);
    law_next_day_of_rendered_date(y, 3, 30);
    law_next_day_of_rendered_date(y, 3, 31);
    law_next_day_of_rendered_date(y, 4, 29);
    law_next_day_of_rendered_date(y, 4, 30);
    law_next_day_of_rendered_date(y, 5, 30);
    law_next_day_of_rendered_date(y, 5, 31);
    law_next_day_of_rendered_date(y, 6, 29);
    law_next_day_of_rendered_date(y, 6, 30);
    law_next_day_of_rendered_date(y, 7, 30);
    law_next_day_of_rendered_date(y, 7, 31);
    law_next_day_of_rendered_date(y, 8, 30);
    law_next_day_of_rendered_date(y, 8, 31);
    law_next_day_of_rendered_date(y, 9, 29);
    law_next_day_of_rendered_date(y, 9, 30);
    law_next_day_of_rendered_date(y, 10, 30);
    law_next_day_of_rendered_date(y, 10, 31);
    law_next_day_of_rendered_date(y, 11, 29);
    law_next_day_of_rendered_date(y, 11, 30);
    law_next_day_of_rendered_date(y, 12, 30);
    law_next_day_of_rendered_date(y, 12, 31);
    law_next_day_of_rendered_date(y, 2, 28);
    if is_leap_year(y as int) {
        law_next_day_of_rendered_date(y, 2, 29);
    }
}

/// Inside a month `next_day` moves on by one day in the same month and year:
/// from the 1st to the 28th of any month, and up to the 30th of every month but
/// February.
pub proof fn law_next_day_within_month(y: nat, m: nat, d: nat)
    requires
        y < i32::MAX,
        1 <= m <= 12,
        1 <= d,
        d < 28 || (m != 2 && d < 30),
    ensures
        next_day_defined(format_date(y, m, d)),
        next_day_spec(format_date(y, m, d)) == format_date(y, m, d + 1),
{
    law_next_day_of_rendered_date(y, m, d);
}

proof fn lemma_two_digits(n: nat)
    requires
        n < 100,
    ensures
        zero_pad(decimal(n), 2) == seq![digit_char(n as int / 10), digit_char(n as int % 10)],
{
    reveal_with_fuel(decimal, 2);
    if n < 10 {
        assert(zero_pad(decimal(n), 2) =~= seq!['0', digit_char(n as int)]);
    } else {
        assert(zero_pad(decimal(n), 2) =~= seq![digit_char(n as int / 10), digit_char(n as int % 10)]);
    }
}

proof fn lemma_four_digits(n: nat)
    requires
        n < 10000,
    ensures
        zero_pad(decimal(n), 4) == seq![
            digit_char(n as int / 1000),
            digit_char((n as int / 100) % 10),
            digit_char((n as int / 10) % 10),
            digit_char(n as int % 10),
        ],
{
    reveal_with_fuel(decimal, 4);
    let want = seq![digit_char(n as int / 1000), digit_char((n as int / 100) % 10), digit_char((n as int / 10) % 10), digit_char(n as int % 10)];
    if n < 10 {
        assert(zero_pad(decimal(n), 4) =~= want);
    } else if n < 100 {
        assert(decimal(n / 10) == seq![digit_char(n as int / 10)]);
        assert(zero_pad(decimal(n), 4) =~= want);
    } else if n < 1000 {
        assert((n / 10) / 10 == n / 100);
        assert((n / 10) % 10 == (n / 10) % 10);
        assert(decimal(n / 10) == seq![digit_char(n as int / 100)].push(digit_char((n as int / 10) % 10)));
        assert(zero_pad(decimal(n), 4) =~= want);
    } else {
        assert((n / 10) / 10 == n / 100);
        assert((n / 100) / 10 == n / 1000);
        assert(decimal(n / 100) == seq![digit_char(n as int / 1000)].push(digit_char((n as int / 100) % 10)));
        assert(decimal(n / 10) == decimal(n / 100).push(digit_char((n as int / 10) % 10)));
        assert(zero_pad(decimal(n), 4) =~= want);
    }
}

/// A date with a year below 10000 renders as ten characters: four digits of
/// year, `-`, two digits of month, `-`, two digits of day, each field padded
/// with leading zeros.
pub proof fn law_date_rendering(y: nat, m: nat, d: nat)
    requires
        y < 10000,
        m < 100,
        d < 100,
    ensures
        format_date(y, m, d) == seq![
            digit_char(y as int / 1000),
            digit_char((y as int / 100) % 10),
            digit_char((y as int / 10) % 10),
            digit_char(y as int % 10),
            '-',
            digit_char(m as int / 10),
            digit_char(m as int % 10),
            '-',
            digit_char(d as int / 10),
            digit_char(d as int % 10),
        ],
{
    lemma_four_digits(y);
    lemma_two_digits(m);
    lemma_two_digits(d);
    assert(format_date(y, m, d) =~= seq![
        digit_char(y as int / 1000),
        digit_char((y as int / 100) % 10),
        digit_char((y as int / 10) % 10),
        digit_char(y as int % 10),
        '-',
        digit_char(m as int / 10),
        digit_char(m as int % 10),
        '-',
        digit_char(d as int / 10),
        digit_char(d as int % 10),
    ]);
}

} // verus!
