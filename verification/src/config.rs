//! What the dashboard makes of the text it reads from files and from
//! `date`/`lipc-get-prop` output, the Home Assistant request texts, and the
//! log size limit.

use vstd::prelude::*;
use crate::text::{
    append_chars, boundary_at, chars_of, split_any, split_spec, str_get,
    string_of, trim, trim_spec, utf8_len, views,
};

verus! {

/// The log file is truncated before a write once it has grown past this many bytes.
pub open spec fn log_max_bytes() -> int {
    524288
}

/// Whether the next log line starts a fresh file: when the current length is
/// known and above the limit (an unreadable length keeps appending).
pub fn log_should_truncate(current_len: Option<u64>) -> (r: bool)
    ensures
        r == (current_len matches Some(n) && n > log_max_bytes()),
{
    match current_len {
        Some(n) => n > 512 * 1024,
        None => false,
    }
}

/// The text of a clock reading from `date` output: the output trimmed, or
/// `"?"` when there was none.
pub open spec fn clock_text_spec(output: Option<Seq<char>>) -> Seq<char> {
    match output {
        Some(o) => trim_spec(o),
        None => "?"@,
    }
}

/// Turns the (UTF-8) standard output of a `date` run, if the run and decoding
/// succeeded, into the text shown.
pub fn clock_text(output: Option<&str>) -> (r: String)
    ensures
        r@ == clock_text_spec(match output {
            Some(o) => Some(o@),
            None => None,
        }),
{
    match output {
        Some(o) => {
            let v = chars_of(o);
            let t = trim(v.as_slice());
            string_of(t.as_slice())
        },
        None => String::from_str("?"),
    }
}

/// The trimmed file contents, when the file was read and holds more than white space.
pub open spec fn trimmed_nonempty(contents: Option<Seq<char>>) -> Option<Seq<char>> {
    match contents {
        Some(c) => if trim_spec(c).len() > 0 { Some(trim_spec(c)) } else { None },
        None => None,
    }
}

fn trimmed_text(contents: Option<&str>) -> (r: Option<String>)
    ensures
        match r {
            Some(s) => trimmed_nonempty(match contents { Some(c) => Some(c@), None => None }) == Some(s@),
            None => trimmed_nonempty(match contents { Some(c) => Some(c@), None => None }) is None,
        },
{
    match contents {
        Some(c) => {
            let v = chars_of(c);
            let t = trim(v.as_slice());
            if t.len() > 0 {
                Some(string_of(t.as_slice()))
            } else {
                None
            }
        },
        None => None,
    }
}

/// The access token from the contents of the token file: trimmed, and absent
/// when the file could not be read or holds only white space.
pub fn token_from_file(contents: Option<&str>) -> (r: Option<String>)
    ensures
        match r {
            Some(s) => trimmed_nonempty(match contents { Some(c) => Some(c@), None => None }) == Some(s@),
            None => trimmed_nonempty(match contents { Some(c) => Some(c@), None => None }) is None,
        },
{
    trimmed_text(contents)
}

/// The Home Assistant base URL used when `ha_url.txt` is missing or empty.
pub open spec fn default_ha_url() -> Seq<char> {
    "http://homeassistant.local:8123"@
}

/// The Home Assistant base URL from the contents of `ha_url.txt`: trimmed, or
/// the default when the file could not be read or holds only white space.
pub fn ha_url_from_file(contents: Option<&str>) -> (r: String)
    ensures
        r@ == match trimmed_nonempty(match contents { Some(c) => Some(c@), None => None }) {
            Some(u) => u,
            None => default_ha_url(),
        },
{
    match trimmed_text(contents) {
        Some(u) => u,
        None => String::from_str("http://homeassistant.local:8123"),
    }
}

/// The battery line from `lipc-get-prop ... battLevel` output: the trimmed
/// value with `%` appended, or nothing when the output is missing or blank.
pub fn battery_text(output: Option<&str>) -> (r: Option<String>)
    ensures
        match r {
            Some(s) => (trimmed_nonempty(match output { Some(c) => Some(c@), None => None }) matches Some(v)
                && s@ == v + "%"@),
            None => trimmed_nonempty(match output { Some(c) => Some(c@), None => None }) is None,
        },
{
    match trimmed_text(output) {
        Some(v) => {
            let mut s = v;
            s.append("%");
            Some(s)
        },
        None => None,
    }
}

/// The URL of one entity's state.
pub fn state_url(ha_url: &str, entity_id: &str) -> (r: String)
    ensures
        r@ == ha_url@ + "/api/states/"@ + entity_id@,
{
    let mut url = String::from_str(ha_url);
    url.append("/api/states/");
    url.append(entity_id);
    url
}

/// The `Authorization` header value for a token.
pub fn bearer_header(token: &str) -> (r: String)
    ensures
        r@ == "Bearer "@ + token@,
{
    let mut h = String::from_str("Bearer ");
    h.append(token);
    h
}

/// Everything a refresh needs from one `date` run.
pub struct NowSnapshot {
    /// `%F %T`, the log timestamp.
    pub log_ts: String,
    /// `%I:%M %p`.
    pub time_text: String,
    /// `%A, %B %d`.
    pub date_text: String,
    /// The part of the timestamp before its first space (today's `YYYY-MM-DD`).
    pub iso_date: String,
    /// `%z` as `+HH:MM`, or `+00:00` when `%z` did not have five bytes.
    pub utc_offset: String,
    /// The `%z` field as read.
    pub raw_offset: String,
    /// Whether `utc_offset` is the `+00:00` fallback.
    pub offset_fell_back: bool,
}

/// Field `i` of the `|`-separated output, or `"?"` when there are fewer fields.
pub open spec fn snapshot_field(raw: Seq<char>, i: int) -> Seq<char> {
    let fields = split_spec(trim_spec(raw), seq!['|']);
    if i < fields.len() { fields[i] } else { "?"@ }
}

/// The `%z` field with a `:` inserted after its third byte when it is five
/// bytes long (so `-0400` becomes `-04:00`), and `+00:00` otherwise.
pub open spec fn offset_text(raw_offset: Seq<char>) -> Seq<char> {
    if utf8_len(raw_offset) == 5 {
        let k = choose|k: int| boundary_at(raw_offset, 3, k);
        raw_offset.take(k) + seq![':'] + raw_offset.skip(k)
    } else {
        "+00:00"@
    }
}

/// Inputs on which the offset can be split: a five-byte `%z` field has a char
/// boundary after its third byte (slicing there panics otherwise).
pub open spec fn snapshot_defined(raw: Seq<char>) -> bool {
    let off = snapshot_field(raw, 3);
    utf8_len(off) == 5 ==> exists|k: int| boundary_at(off, 3, k)
}

/// The snapshot read from the text `date +'%F %T|%I:%M %p|%A, %B %d|%z'` printed.
pub open spec fn snapshot_spec(raw: Seq<char>) -> (Seq<char>, Seq<char>, Seq<char>, Seq<char>, Seq<char>) {
    let log_ts = snapshot_field(raw, 0);
    (
        log_ts,
        snapshot_field(raw, 1),
        snapshot_field(raw, 2),
        split_spec(log_ts, seq![' '])[0],
        offset_text(snapshot_field(raw, 3)),
    )
}

fn field_or_unknown(fields: &Vec<Vec<char>>, i: usize) -> (r: Vec<char>)
    ensures
        r@ == (if i < fields@.len() { views(fields@)[i as int] } else { "?"@ }),
{
    if i < fields.len() {
        fields[i].clone()
    } else {
        chars_of("?")
    }
}

fn byte_len(s: &[char]) -> (r: u128)
    ensures
        r == utf8_len(s@),
{
    let n = s.len();
    let mut acc: u128 = 0;
    for i in 0..n
        invariant
            n == s@.len(),
            acc == utf8_len(s@.take(i as int)),
            acc <= 4 * i,
    {
        let v = s[i] as u32;
        let w: u128 = if v < 0x80 { 1 } else if v < 0x800 { 2 } else if v < 0x10000 { 3 } else { 4 };
        proof {
            assert(s@.take(i + 1).drop_last() == s@.take(i as int));
            assert(s@.take(i + 1).last() == s@[i as int]);
        }
        acc = acc + w;
    }
    assert(s@.take(n as int) == s@);
    acc
}

/// Whether `parse_now_snapshot` can read this output without panicking.
pub fn snapshot_parsable(raw: &str) -> (r: bool)
    ensures
        r == snapshot_defined(raw@),
{
    let v = chars_of(raw);
    let t = trim(v.as_slice());
    let seps: Vec<char> = vec!['|'];
    assert(seps@ =~= seq!['|']);
    let fields = split_any(t.as_slice(), seps.as_slice());
    let off = field_or_unknown(&fields, 3);
    if byte_len(off.as_slice()) != 5 {
        return true;
    }
    match str_get(off.as_slice(), 3, 3) {
        Some(_) => true,
        None => false,
    }
}

/// Reads the snapshot out of the `date` output (empty text when `date` could
/// not be run or printed invalid UTF-8).
pub fn parse_now_snapshot(raw: &str) -> (r: NowSnapshot)
    requires
        snapshot_defined(raw@),
    ensures
        (r.log_ts@, r.time_text@, r.date_text@, r.iso_date@, r.utc_offset@) == snapshot_spec(raw@),
        r.raw_offset@ == snapshot_field(raw@, 3),
        r.offset_fell_back == (utf8_len(snapshot_field(raw@, 3)) != 5),
{
    let v = chars_of(raw);
    let t = trim(v.as_slice());
    let bar: Vec<char> = vec!['|'];
    assert(bar@ =~= seq!['|']);
    let fields = split_any(t.as_slice(), bar.as_slice());
    let log_ts = field_or_unknown(&fields, 0);
    let time_text = field_or_unknown(&fields, 1);
    let date_text = field_or_unknown(&fields, 2);
    let raw_offset = field_or_unknown(&fields, 3);
    let space: Vec<char> = vec![' '];
    assert(space@ =~= seq![' ']);
    let day_pieces = split_any(log_ts.as_slice(), space.as_slice());
    proof {
        crate::text::lemma_split_nonempty(log_ts@, seq![' ']);
        assert(views(day_pieces@)[0] == day_pieces@[0]@);
    }
    let iso_date = day_pieces[0].clone();
    let fell_back = byte_len(raw_offset.as_slice()) != 5;
    let utc_offset = if fell_back {
        chars_of("+00:00")
    } else {
        let head = str_get(raw_offset.as_slice(), 0, 3);
        let tail_end = raw_offset.len();
        let mut out: Vec<char> = Vec::new();
        let ghost off = raw_offset@;
        proof {
            assert(boundary_at(off, 0, 0)) by {
                assert(off.take(0) =~= Seq::<char>::empty());
            }
        }
        match head {
            Some(h) => {
                append_chars(&mut out, h.as_slice());
                out.push(':');
                let k = h.len();
                proof {
                    let c0 = choose|x: int| boundary_at(off, 0, x);
                    let c3 = choose|x: int| boundary_at(off, 3, x);
                    assert(c0 == 0) by {
                        if c0 > 0 {
                            crate::text::lemma_utf8_len_strictly_increasing(off, 0, c0);
                        }
                    }
                    assert(h@ == off.subrange(0, c3));
                    assert(k == c3);
                }
                let tail = crate::text::sub_chars(raw_offset.as_slice(), k, tail_end);
                append_chars(&mut out, tail.as_slice());
                assert(out@ =~= off.take(k as int) + seq![':'] + off.skip(k as int));
            },
            None => {
                assert(false);
            },
        }
        out
    };
    NowSnapshot {
        log_ts: string_of(log_ts.as_slice()),
        time_text: string_of(time_text.as_slice()),
        date_text: string_of(date_text.as_slice()),
        iso_date: string_of(iso_date.as_slice()),
        utc_offset: string_of(utc_offset.as_slice()),
        raw_offset: string_of(raw_offset.as_slice()),
        offset_fell_back: fell_back,
    }
}

} // verus!
