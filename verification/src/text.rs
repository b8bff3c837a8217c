//! Character-sequence helpers shared by the dashboard logic: copying between
//! `str`/`String` and `Vec<char>`, comparison, trimming, splitting,
//! substring search, decimal formatting and parsing of integers.

use vstd::prelude::*;

verus! {

/// Copies the characters of a string slice into a vector.
pub fn chars_of(s: &str) -> (v: Vec<char>)
    ensures
        v@ == s@,
{
    let mut v: Vec<char> = Vec::new();
    for c in it: s.chars()
        invariant
            v@ == it.seq().take(it.index() as int),
    {
        v.push(c);
    }
    v
}

/// `String::push` from std: appends one character to the end of the string.
#[verifier::external_body]
fn push_char(s: &mut String, c: char)
    ensures
        final(s)@ == old(s)@.push(c),
{
    s.push(c);
}

/// Builds a `String` holding exactly the given characters.
pub fn string_of(v: &[char]) -> (s: String)
    ensures
        s@ == v@,
{
    let mut s = String::new();
    let n = v.len();
    for i in 0..n
        invariant
            n == v@.len(),
            s@ == v@.take(i as int),
    {
        push_char(&mut s, v[i]);
        assert(v@.take(i + 1) == v@.take(i as int).push(v@[i as int]));
    }
    assert(v@.take(n as int) == v@);
    s
}

/// Character-wise equality of two sequences.
pub fn same_chars(a: &[char], b: &[char]) -> (r: bool)
    ensures
        r == (a@ == b@),
{
    if a.len() != b.len() {
        return false;
    }
    let n = a.len();
    for i in 0..n
        invariant
            n == a@.len(),
            n == b@.len(),
            forall|k: int| 0 <= k < i ==> a@[k] == b@[k],
    {
        if a[i] != b[i] {
            return false;
        }
    }
    assert(a@ =~= b@);
    true
}

/// Whether the characters equal those of the string slice.
pub fn chars_are(a: &[char], s: &str) -> (r: bool)
    ensures
        r == (a@ == s@),
{
    let b = chars_of(s);
    same_chars(a, b.as_slice())
}

/// Whether every character is ASCII.
pub open spec fn is_ascii_text(s: Seq<char>) -> bool {
    forall|i: int| 0 <= i < s.len() ==> (#[trigger] s[i] as u32) < 0x80
}

/// ASCII lowercase of one character: `A..=Z` become `a..=z`, others stay.
pub open spec fn ascii_lower_char(c: char) -> char {
    if 'A' <= c && c <= 'Z' {
        ((c as u32) + 32) as char
    } else {
        c
    }
}

/// ASCII lowercase of each character.
pub open spec fn ascii_lowercase(s: Seq<char>) -> Seq<char> {
    s.map_values(|c: char| ascii_lower_char(c))
}

/// Whether `c` has the Unicode `White_Space` property (what
/// `char::is_whitespace` decides): U+0009..=U+000D, U+0020, U+0085, U+00A0,
/// U+1680, U+2000..=U+200A, U+2028, U+2029, U+202F, U+205F and U+3000.
pub open spec fn is_white_space(c: char) -> bool {
    let v = c as u32;
    ||| 0x9 <= v <= 0xD
    ||| v == 0x20
    ||| v == 0x85
    ||| v == 0xA0
    ||| v == 0x1680
    ||| 0x2000 <= v <= 0x200A
    ||| v == 0x2028
    ||| v == 0x2029
    ||| v == 0x202F
    ||| v == 0x205F
    ||| v == 0x3000
}

/// Whether `c` is Unicode white space.
pub fn char_is_whitespace(c: char) -> (r: bool)
    ensures
        r == is_white_space(c),
{
    let v = c as u32;
    (0x9 <= v && v <= 0xD) || v == 0x20 || v == 0x85 || v == 0xA0 || v == 0x1680 || (0x2000 <= v
        && v <= 0x200A) || v == 0x2028 || v == 0x2029 || v == 0x202F || v == 0x205F || v == 0x3000
}

/// Index of the first `false` flag (the flags' length when all are set).
pub open spec fn first_unflagged(f: Seq<bool>) -> int
    decreases f.len(),
{
    if f.len() == 0 {
        0
    } else if !f[0] {
        0
    } else {
        1 + first_unflagged(f.drop_first())
    }
}

/// One past the index of the last `false` flag (0 when all are set).
pub open spec fn end_unflagged(f: Seq<bool>) -> int
    decreases f.len(),
{
    if f.len() == 0 {
        0
    } else if !f.last() {
        f.len() as int
    } else {
        end_unflagged(f.drop_last())
    }
}

/// `s` without its leading and trailing characters whose flag is set.
pub open spec fn trim_flagged_spec(s: Seq<char>, f: Seq<bool>) -> Seq<char> {
    if first_unflagged(f) < end_unflagged(f) {
        s.subrange(first_unflagged(f), end_unflagged(f))
    } else {
        Seq::empty()
    }
}

/// The white-space flag of each character.
pub open spec fn white_space_flags(s: Seq<char>) -> Seq<bool> {
    Seq::new(s.len(), |i: int| is_white_space(s[i]))
}

/// `s` with leading and trailing white space removed (what `str::trim` gives).
pub open spec fn trim_spec(s: Seq<char>) -> Seq<char> {
    trim_flagged_spec(s, white_space_flags(s))
}

proof fn lemma_first_unflagged(f: Seq<bool>, i: int)
    requires
        0 <= i <= f.len(),
        forall|k: int| 0 <= k < i ==> #[trigger] f[k],
        i == f.len() || !f[i],
    ensures
        first_unflagged(f) == i,
    decreases i,
{
    if i > 0 {
        assert forall|k: int| 0 <= k < i - 1 implies #[trigger] f.drop_first()[k] by {
            assert(f.drop_first()[k] == f[k + 1]);
        }
        assert(f[0]);
        lemma_first_unflagged(f.drop_first(), i - 1);
    }
}

proof fn lemma_end_unflagged(f: Seq<bool>, j: int)
    requires
        0 <= j <= f.len(),
        forall|k: int| j <= k < f.len() ==> #[trigger] f[k],
        j == 0 || !f[j - 1],
    ensures
        end_unflagged(f) == j,
    decreases f.len() - j,
{
    if j < f.len() {
        assert(f[f.len() - 1]);
        assert forall|k: int| j <= k < f.drop_last().len() implies #[trigger] f.drop_last()[k] by {
            assert(f.drop_last()[k] == f[k]);
        }
        lemma_end_unflagged(f.drop_last(), j);
    } else if j == 0 {
        assert(f.len() == 0);
    }
}

/// Removes the leading and trailing characters whose flag is set; `flags`
/// gives one flag per character.
pub fn trim_flagged(v: &[char], flags: &[bool]) -> (r: Vec<char>)
    requires
        flags@.len() == v@.len(),
    ensures
        r@ == trim_flagged_spec(v@, flags@),
{
    let n = v.len();
    let mut i: usize = 0;
    while i < n && flags[i]
        invariant
            n == v@.len(),
            n == flags@.len(),
            0 <= i <= n,
            forall|k: int| 0 <= k < i ==> #[trigger] flags@[k],
        decreases n - i,
    {
        i = i + 1;
    }
    proof {
        lemma_first_unflagged(flags@, i as int);
    }
    let mut j: usize = n;
    while j > i && flags[j - 1]
        invariant
            n == v@.len(),
            n == flags@.len(),
            0 <= i <= j <= n,
            forall|k: int| j <= k < n ==> #[trigger] flags@[k],
        decreases j,
    {
        j = j - 1;
    }
    proof {
        if i == n {
            lemma_end_unflagged(flags@, 0);
        } else {
            assert(j > i);
            lemma_end_unflagged(flags@, j as int);
        }
    }
    sub_chars(v, i, j)
}

/// The white-space flag of each character, from `char::is_whitespace`.
fn white_space_flags_of(v: &[char]) -> (f: Vec<bool>)
    ensures
        f@ == white_space_flags(v@),
{
    let n = v.len();
    let mut f: Vec<bool> = Vec::new();
    for i in 0..n
        invariant
            n == v@.len(),
            f@.len() == i,
            forall|k: int| 0 <= k < i ==> f@[k] == is_white_space(v@[k]),
    {
        f.push(char_is_whitespace(v[i]));
    }
    assert(f@ =~= white_space_flags(v@));
    f
}

/// Removes leading and trailing white space.
pub fn trim(v: &[char]) -> (r: Vec<char>)
    ensures
        r@ == trim_spec(v@),
{
    let flags = white_space_flags_of(v);
    trim_flagged(v, flags.as_slice())
}

/// The pieces of `s` between the separator characters in `seps`, as
/// `str::split` with a set of separator chars yields them (always at least one
/// piece; consecutive separators give empty pieces).
pub open spec fn split_spec(s: Seq<char>, seps: Seq<char>) -> Seq<Seq<char>>
    decreases s.len(),
{
    if s.len() == 0 {
        seq![Seq::<char>::empty()]
    } else {
        let r = split_spec(s.drop_last(), seps);
        if seps.contains(s.last()) {
            r.push(Seq::<char>::empty())
        } else {
            r.update(r.len() - 1, r.last().push(s.last()))
        }
    }
}

/// A split always yields at least one piece.
pub proof fn lemma_split_nonempty(s: Seq<char>, seps: Seq<char>)
    ensures
        split_spec(s, seps).len() >= 1,
    decreases s.len(),
{
    if s.len() > 0 {
        lemma_split_nonempty(s.drop_last(), seps);
    }
}

/// Text without a separator splits into itself alone.
pub proof fn lemma_split_without_separator(s: Seq<char>, seps: Seq<char>)
    requires
        forall|i: int| 0 <= i < s.len() ==> !seps.contains(#[trigger] s[i]),
    ensures
        split_spec(s, seps) == seq![s],
    decreases s.len(),
{
    if s.len() > 0 {
        lemma_split_without_separator(s.drop_last(), seps);
        assert(!seps.contains(s[s.len() - 1]));
        assert(s.drop_last().push(s.last()) == s);
        assert(seq![s.drop_last()].update(0, s.drop_last().push(s.last())) =~= seq![s]);
    } else {
        assert(s == Seq::<char>::empty());
    }
}

/// Splitting at a separator character splits the text on either side apart.
pub proof fn lemma_split_at_separator(p: Seq<char>, x: char, q: Seq<char>, seps: Seq<char>)
    requires
        seps.contains(x),
    ensures
        split_spec(p + seq![x] + q, seps) == split_spec(p, seps) + split_spec(q, seps),
    decreases q.len(),
{
    let sep = seq![x];
    if q.len() == 0 {
        assert(p + sep + q == (p + sep));
        assert((p + sep).drop_last() == p);
        assert(split_spec(p, seps) + split_spec(q, seps) =~= split_spec(p, seps).push(Seq::<char>::empty()));
    } else {
        lemma_split_at_separator(p, x, q.drop_last(), seps);
        lemma_split_nonempty(q.drop_last(), seps);
        let s = p + sep + q;
        assert(s.drop_last() == p + sep + q.drop_last());
        assert(s.last() == q.last());
        let a = split_spec(p, seps);
        let b = split_spec(q.drop_last(), seps);
        if seps.contains(q.last()) {
            assert((a + b).push(Seq::<char>::empty()) =~= a + b.push(Seq::<char>::empty()));
        } else {
            assert((a + b).update((a + b).len() - 1, (a + b).last().push(q.last())) =~= a + b.update(
                b.len() - 1,
                b.last().push(q.last()),
            ));
        }
    }
}

fn contains_char(seps: &[char], c: char) -> (r: bool)
    ensures
        r == seps@.contains(c),
{
    let n = seps.len();
    for i in 0..n
        invariant
            n == seps@.len(),
            forall|k: int| 0 <= k < i ==> seps@[k] != c,
    {
        if seps[i] == c {
            assert(seps@[i as int] == c);
            return true;
        }
    }
    false
}

/// The character sequences held by a sequence of vectors.
pub open spec fn views(v: Seq<Vec<char>>) -> Seq<Seq<char>> {
    v.map_values(|p: Vec<char>| p@)
}

/// Splits `s` at every character that occurs in `seps`.
pub fn split_any(s: &[char], seps: &[char]) -> (r: Vec<Vec<char>>)
    ensures
        views(r@) == split_spec(s@, seps@),
{
    let mut pieces: Vec<Vec<char>> = Vec::new();
    let mut cur: Vec<char> = Vec::new();
    let n = s.len();
    assert(s@.take(0) == Seq::<char>::empty());
    for i in 0..n
        invariant
            n == s@.len(),
            views(pieces@).push(cur@) == split_spec(s@.take(i as int), seps@),
    {
        let c = s[i];
        let ghost before = split_spec(s@.take(i as int), seps@);
        proof {
            lemma_split_nonempty(s@.take(i as int), seps@);
            assert(s@.take(i + 1).drop_last() == s@.take(i as int));
            assert(s@.take(i + 1).last() == c);
        }
        if contains_char(seps, c) {
            let done = cur;
            pieces.push(done);
            cur = Vec::new();
            assert(views(pieces@) =~= before);
        } else {
            let ghost old_cur = cur@;
            cur.push(c);
            assert(views(pieces@).push(cur@) =~= before.update(before.len() - 1, old_cur.push(c)));
        }
    }
    pieces.push(cur);
    assert(s@.take(n as int) == s@);
    assert(views(pieces@) =~= split_spec(s@, seps@));
    pieces
}

/// Whether `needle` occurs in `hay` starting at position `i`.
pub open spec fn occurs_at(hay: Seq<char>, needle: Seq<char>, i: int) -> bool {
    0 <= i && i + needle.len() <= hay.len() && hay.subrange(i, i + needle.len()) == needle
}

/// Whether `needle` occurs anywhere in `hay` (what `str::contains` decides for a `&str` pattern).
pub open spec fn contains_spec(hay: Seq<char>, needle: Seq<char>) -> bool {
    exists|i: int| occurs_at(hay, needle, i)
}

fn matches_at(hay: &[char], needle: &[char], i: usize) -> (r: bool)
    requires
        i + needle@.len() <= hay@.len(),
    ensures
        r == occurs_at(hay@, needle@, i as int),
{
    let m = needle.len();
    for k in 0..m
        invariant
            m == needle@.len(),
            i + m <= hay.len(),
            forall|t: int| 0 <= t < k ==> hay@[i + t] == needle@[t],
    {
        if hay[i + k] != needle[k] {
            assert(hay@.subrange(i as int, i + m)[k as int] != needle@[k as int]);
            return false;
        }
    }
    assert(hay@.subrange(i as int, i + m) =~= needle@);
    true
}

/// Substring search.
pub fn contains(hay: &[char], needle: &[char]) -> (r: bool)
    ensures
        r == contains_spec(hay@, needle@),
{
    let n = hay.len();
    let m = needle.len();
    if m > n {
        return false;
    }
    if m == 0 {
        assert(hay@.subrange(0, 0) =~= needle@);
        assert(occurs_at(hay@, needle@, 0));
        return true;
    }
    let last = n - m;
    let mut i: usize = 0;
    while i <= last
        invariant
            n == hay@.len(),
            m == needle@.len(),
            m >= 1,
            last + m == n,
            0 <= i <= last + 1,
            forall|t: int| 0 <= t < i ==> !occurs_at(hay@, needle@, t),
        decreases last + 1 - i,
    {
        if matches_at(hay, needle, i) {
            return true;
        }
        i = i + 1;
    }
    false
}

/// The characters of `s` from position `i` up to (not including) `j`.
pub fn sub_chars(s: &[char], i: usize, j: usize) -> (r: Vec<char>)
    requires
        i <= j <= s@.len(),
    ensures
        r@ == s@.subrange(i as int, j as int),
{
    let mut r: Vec<char> = Vec::new();
    for k in i..j
        invariant
            i <= j <= s@.len(),
            r@ == s@.subrange(i as int, k as int),
    {
        r.push(s[k]);
        assert(s@.subrange(i as int, k + 1) == s@.subrange(i as int, k as int).push(s@[k as int]));
    }
    r
}

/// Appends the characters of `src` to `dst`.
pub fn append_chars(dst: &mut Vec<char>, src: &[char])
    ensures
        final(dst)@ == old(dst)@ + src@,
{
    let n = src.len();
    let ghost start = dst@;
    for i in 0..n
        invariant
            n == src@.len(),
            dst@ == start + src@.take(i as int),
    {
        dst.push(src[i]);
        assert(src@.take(i + 1) == src@.take(i as int).push(src@[i as int]));
        assert(dst@ =~= start + src@.take(i + 1));
    }
    assert(src@.take(n as int) == src@);
}

/// Appends the characters of a string slice to `dst`.
pub fn append_str(dst: &mut Vec<char>, src: &str)
    ensures
        final(dst)@ == old(dst)@ + src@,
{
    let v = chars_of(src);
    append_chars(dst, v.as_slice());
}

/// Number of bytes in the UTF-8 encoding of `c`.
pub open spec fn char_width(c: char) -> nat {
    if (c as u32) < 0x80 {
        1
    } else if (c as u32) < 0x800 {
        2
    } else if (c as u32) < 0x10000 {
        3
    } else {
        4
    }
}

/// Number of bytes in the UTF-8 encoding of `s` (what `str::len` counts).
pub open spec fn utf8_len(s: Seq<char>) -> nat
    decreases s.len(),
{
    if s.len() == 0 {
        0
    } else {
        utf8_len(s.drop_last()) + char_width(s.last())
    }
}

/// Byte offset `b` falls just before character `k` of `s` (a char boundary).
pub open spec fn boundary_at(s: Seq<char>, b: nat, k: int) -> bool {
    0 <= k <= s.len() && utf8_len(s.take(k)) == b
}

/// What `str::get(from..to)` returns: the characters between two byte
/// offsets when both are char boundaries within the string and `from <= to`,
/// and `None` otherwise.
pub open spec fn str_get_spec(s: Seq<char>, from: nat, to: nat) -> Option<Seq<char>> {
    if from <= to && (exists|i: int| boundary_at(s, from, i)) && (exists|j: int| boundary_at(s, to, j)) {
        let i = choose|i: int| boundary_at(s, from, i);
        let j = choose|j: int| boundary_at(s, to, j);
        Some(s.subrange(i, j))
    } else {
        None
    }
}

/// The characters held by an optional vector.
pub open spec fn opt_chars(o: Option<Vec<char>>) -> Option<Seq<char>> {
    match o {
        Some(v) => Some(v@),
        None => None,
    }
}

/// Longer prefixes take strictly more bytes.
pub proof fn lemma_utf8_len_strictly_increasing(s: Seq<char>, k1: int, k2: int)
    requires
        0 <= k1 < k2 <= s.len(),
    ensures
        utf8_len(s.take(k1)) < utf8_len(s.take(k2)),
    decreases k2,
{
    assert(s.take(k2).drop_last() == s.take(k2 - 1));
    if k1 < k2 - 1 {
        lemma_utf8_len_strictly_increasing(s, k1, k2 - 1);
    }
}

proof fn lemma_boundary_unique(s: Seq<char>, b: nat, k1: int, k2: int)
    requires
        boundary_at(s, b, k1),
        boundary_at(s, b, k2),
    ensures
        k1 == k2,
{
    if k1 < k2 {
        lemma_utf8_len_strictly_increasing(s, k1, k2);
    } else if k2 < k1 {
        lemma_utf8_len_strictly_increasing(s, k2, k1);
    }
}

fn width_of(c: char) -> (w: u128)
    ensures
        w == char_width(c),
{
    let v = c as u32;
    if v < 0x80 {
        1
    } else if v < 0x800 {
        2
    } else if v < 0x10000 {
        3
    } else {
        4
    }
}

/// The character index at which byte offset `b` falls, if it is a char boundary.
fn char_index_of_byte(s: &[char], b: usize) -> (r: Option<usize>)
    ensures
        r matches Some(k) ==> boundary_at(s@, b as nat, k as int),
        r is None ==> !(exists|k: int| boundary_at(s@, b as nat, k)),
{
    let n = s.len();
    let mut k: usize = 0;
    let mut acc: u128 = 0;
    loop
        invariant
            n == s@.len(),
            0 <= k <= n,
            acc == utf8_len(s@.take(k as int)),
            acc <= 4 * k,
            forall|t: int| 0 <= t < k ==> utf8_len(#[trigger] s@.take(t)) < b,
        decreases n - k,
    {
        if acc == b as u128 {
            return Some(k);
        }
        if acc > b as u128 || k == n {
            proof {
                assert forall|t: int| !boundary_at(s@, b as nat, t) by {
                    if 0 <= t <= n {
                        if t > k {
                            lemma_utf8_len_strictly_increasing(s@, k as int, t);
                        }
                    }
                }
            }
            return None;
        }
        let w = width_of(s[k]);
        proof {
            assert(s@.take(k + 1).drop_last() == s@.take(k as int));
            assert(s@.take(k + 1).last() == s@[k as int]);
        }
        acc = acc + w;
        k = k + 1;
    }
}

/// `str::get(from..to)` on a character sequence, with byte offsets.
pub fn str_get(s: &[char], from: usize, to: usize) -> (r: Option<Vec<char>>)
    ensures
        opt_chars(r) == str_get_spec(s@, from as nat, to as nat),
{
    if from > to {
        return None;
    }
    let i = char_index_of_byte(s, from);
    let j = char_index_of_byte(s, to);
    match (i, j) {
        (Some(i), Some(j)) => {
            proof {
                let ci = choose|x: int| boundary_at(s@, from as nat, x);
                let cj = choose|x: int| boundary_at(s@, to as nat, x);
                lemma_boundary_unique(s@, from as nat, i as int, ci);
                lemma_boundary_unique(s@, to as nat, j as int, cj);
                if j < i {
                    lemma_utf8_len_strictly_increasing(s@, j as int, i as int);
                }
            }
            Some(sub_chars(s, i, j))
        },
        _ => None,
    }
}

/// Position of the first occurrence of `c` in `s`.
pub open spec fn first_index_of(s: Seq<char>, c: char) -> Option<int>
    decreases s.len(),
{
    if s.len() == 0 {
        None
    } else if s[0] == c {
        Some(0)
    } else {
        match first_index_of(s.drop_first(), c) {
            Some(i) => Some(i + 1),
            None => None,
        }
    }
}

proof fn lemma_first_index(s: Seq<char>, c: char, i: int)
    requires
        0 <= i <= s.len(),
        forall|t: int| 0 <= t < i ==> s[t] != c,
    ensures
        i < s.len() && s[i] == c ==> first_index_of(s, c) == Some(i),
        i == s.len() ==> first_index_of(s, c) is None,
    decreases i,
{
    if i > 0 {
        assert forall|t: int| 0 <= t < i - 1 implies s.drop_first()[t] != c by {
            assert(s.drop_first()[t] == s[t + 1]);
        }
        lemma_first_index(s.drop_first(), c, i - 1);
        assert(s[0] != c);
    }
}

/// What `str::split_once(c)` gives for a char pattern: the text before and
/// after the first occurrence of `c`.
pub open spec fn split_once_spec(s: Seq<char>, c: char) -> Option<(Seq<char>, Seq<char>)> {
    match first_index_of(s, c) {
        Some(i) => Some((s.take(i), s.skip(i + 1))),
        None => None,
    }
}

/// Splits at the first occurrence of `c`.
pub fn split_once(s: &[char], c: char) -> (r: Option<(Vec<char>, Vec<char>)>)
    ensures
        match r {
            Some((a, b)) => split_once_spec(s@, c) == Some((a@, b@)),
            None => split_once_spec(s@, c) is None,
        },
{
    let n = s.len();
    for i in 0..n
        invariant
            n == s@.len(),
            forall|t: int| 0 <= t < i ==> s@[t] != c,
    {
        if s[i] == c {
            proof {
                lemma_first_index(s@, c, i as int);
            }
            let a = sub_chars(s, 0, i);
            let b = sub_chars(s, i + 1, n);
            assert(a@ == s@.take(i as int));
            assert(b@ == s@.skip(i + 1));
            return Some((a, b));
        }
    }
    proof {
        lemma_first_index(s@, c, n as int);
    }
    None
}

} // verus!
