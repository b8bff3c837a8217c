//! Today's calendar: the request window, how an event is written in the
//! plain list, and which all-day events become icon alerts.

use vstd::prelude::*;
use crate::date::{next_day, next_day_defined, next_day_spec};
use crate::numbers::{decimal, decimal_of, parse_i32, parse_i32_spec, signed_decimal, signed_decimal_of};
use crate::text::{
    ascii_lowercase, is_ascii_text, occurs_at, append_chars, append_str, chars_are, chars_of, contains, contains_spec, split_once,
    split_once_spec, str_get, str_get_spec, string_of,
};

verus! {

/// The URL that asks Home Assistant's household calendar for the events of
/// one local day: from midnight of `today` to midnight of the next day, both
/// with the given UTC offset.
pub open spec fn calendar_url_spec(ha_url: Seq<char>, today: Seq<char>, offset: Seq<char>) -> Seq<char> {
    ha_url + "/api/calendars/calendar.household?start="@ + today + "T00:00:00"@ + offset + "&end="@
        + next_day_spec(today) + "T00:00:00"@ + offset
}

/// Builds the calendar request URL for the day `today` (`YYYY-MM-DD`) at UTC
/// offset `offset` (`+HH:MM`).
pub fn calendar_url(ha_url: &str, today: &str, offset: &str) -> (r: String)
    requires
        next_day_defined(today@),
    ensures
        r@ == calendar_url_spec(ha_url@, today@, offset@),
{
    let end_day = next_day(today);
    let mut url = String::from_str(ha_url);
    url.append("/api/calendars/calendar.household?start=");
    url.append(today);
    url.append("T00:00:00");
    url.append(offset);
    url.append("&end=");
    url.append(end_day.as_str());
    url.append("T00:00:00");
    url.append(offset);
    url
}

/// A calendar event as far as the dashboard reads it: its `summary` text and
/// the `start.dateTime` text, which only timed events carry (an all-day event
/// has a start date and no start time).
pub struct CalendarEvent {
    pub summary: Option<String>,
    pub start_date_time: Option<String>,
}

/// The text held by an optional string.
pub open spec fn opt_text(o: Option<String>) -> Option<Seq<char>> {
    match o {
        Some(s) => Some(s@),
        None => None,
    }
}

impl View for CalendarEvent {
    type V = (Option<Seq<char>>, Option<Seq<char>>);

    open spec fn view(&self) -> (Option<Seq<char>>, Option<Seq<char>>) {
        (opt_text(self.summary), opt_text(self.start_date_time))
    }
}

/// 12-hour clock reading of a 24-hour hour value.
pub open spec fn clock_hour(hour: int) -> int {
    if hour == 0 {
        12
    } else if hour > 12 {
        hour - 12
    } else {
        hour
    }
}

/// `"PM"` from noon on, `"AM"` before.
pub open spec fn am_pm(hour: int) -> Seq<char> {
    if hour >= 12 { "PM"@ } else { "AM"@ }
}

/// How an event appears in the plain list: `"3:00 PM  Dentist"` for a timed
/// event (hour and minute taken from bytes 11..16 of the start time), just the
/// summary for an all-day one, and nothing when the summary is missing or the
/// start time cannot be read that way.
pub open spec fn event_text(summary: Option<Seq<char>>, start: Option<Seq<char>>) -> Option<Seq<char>> {
    match summary {
        None => None,
        Some(text) => match start {
            None => Some(text),
            Some(dt) => match str_get_spec(dt, 11, 16) {
                None => None,
                Some(time_part) => match split_once_spec(time_part, ':') {
                    None => None,
                    Some((h, m)) => match parse_i32_spec(h) {
                        None => None,
                        Some(hour) => Some(
                            signed_decimal(clock_hour(hour as int)) + seq![':'] + m + seq![' '] + am_pm(
                                hour as int,
                            ) + seq![' ', ' '] + text,
                        ),
                    },
                },
            },
        },
    }
}

/// Format one calendar event for the plain "today" list.
pub fn format_event_text(event: &CalendarEvent) -> (r: Option<String>)
    ensures
        opt_text(r) == event_text(event@.0, event@.1),
{
    let summary = match &event.summary {
        Some(s) => s,
        None => {
            return None;
        },
    };
    match &event.start_date_time {
        None => Some(summary.clone()),
        Some(datetime) => {
            let dt = chars_of(datetime.as_str());
            let time_part = match str_get(dt.as_slice(), 11, 16) {
                Some(t) => t,
                None => {
                    return None;
                },
            };
            let (h, m) = match split_once(time_part.as_slice(), ':') {
                Some(pair) => pair,
                None => {
                    return None;
                },
            };
            let hour = match parse_i32(h.as_slice()) {
                Some(v) => v,
                None => {
                    return None;
                },
            };
            let am_pm_text = if hour >= 12 { "PM" } else { "AM" };
            let shown: i32 = if hour == 0 {
                12
            } else if hour > 12 {
                hour - 12
            } else {
                hour
            };
            let mut out = signed_decimal_of(shown as i64);
            out.push(':');
            append_chars(&mut out, m.as_slice());
            out.push(' ');
            append_str(&mut out, am_pm_text);
            out.push(' ');
            out.push(' ');
            append_str(&mut out, summary.as_str());
            proof {
                assert(am_pm_text@ == am_pm(hour as int));
                assert(out@ =~= signed_decimal(clock_hour(hour as int)) + seq![':'] + m@ + seq![' ']
                    + am_pm(hour as int) + seq![' ', ' '] + summary@);
            }
            Some(string_of(out.as_slice()))
        },
    }
}

/// The alert table: (substring to look for in a lowercased summary, icon key,
/// message). A match turns an all-day event into an icon alert.
pub open spec fn alert_table() -> Seq<(Seq<char>, Seq<char>, Seq<char>)> {
    seq![
        ("trash"@, "trash"@, "Take out the trash!"@),
        ("recycling"@, "recycling"@, "Take out the recycling!"@),
        ("leaves"@, "leaves"@, "Take out the leaves!"@),
    ]
}

/// The text of each row of a table of string slices.
pub open spec fn table_view(t: Seq<(&'static str, &'static str, &'static str)>) -> Seq<(Seq<char>, Seq<char>, Seq<char>)> {
    t.map_values(|row: (&'static str, &'static str, &'static str)| (row.0@, row.1@, row.2@))
}

/// The alert keywords, in matching order. Adding a row here (and an icon) adds an alert.
pub fn alert_keywords() -> (r: Vec<(&'static str, &'static str, &'static str)>)
    ensures
        table_view(r@) == alert_table(),
{
    let r = vec![
        ("trash", "trash", "Take out the trash!"),
        ("recycling", "recycling", "Take out the recycling!"),
        ("leaves", "leaves", "Take out the leaves!"),
    ];
    assert(table_view(r@) =~= alert_table());
    r
}

/// The (icon, message) of the first row whose keyword occurs in `lower`.
pub open spec fn alert_for(lower: Seq<char>, table: Seq<(Seq<char>, Seq<char>, Seq<char>)>) -> Option<(Seq<char>, Seq<char>)>
    decreases table.len(),
{
    if table.len() == 0 {
        None
    } else if contains_spec(lower, table[0].0) {
        Some((table[0].1, table[0].2))
    } else {
        alert_for(lower, table.drop_first())
    }
}

/// The text of an optional pair of string slices.
pub open spec fn opt_pair_view(o: Option<(&'static str, &'static str)>) -> Option<(Seq<char>, Seq<char>)> {
    match o {
        Some((a, b)) => Some((a@, b@)),
        None => None,
    }
}

/// The lowercase form of `s`, as `str::to_lowercase` computes it.
pub uninterp spec fn lowercase_of(s: Seq<char>) -> Seq<char>;

/// `str::to_lowercase` from std. Its result depends on the string alone
/// (Unicode lowercase mapping, with the final-sigma rule); the contract names
/// that result `lowercase_of`. Of that mapping it states only what holds for
/// ASCII characters. std lowercases character by character, each into the
/// characters of its own lowercase mapping (only `Σ` looks at its
/// neighbours), and maps `A..=Z` to `a..=z` and every other ASCII character to
/// itself. So ASCII text comes out as `str::to_ascii_lowercase` gives it, and
/// in any text each run of ASCII characters comes out lowercased and whole:
/// ASCII text found in the ASCII-lowercased input is found in the result. What
/// other characters become is not stated.
#[verifier::external_body]
fn to_lowercase(s: &str) -> (r: String)
    ensures
        r@ == lowercase_of(s@),
        is_ascii_text(s@) ==> r@ == ascii_lowercase(s@),
        forall|needle: Seq<char>|
            is_ascii_text(needle) && #[trigger] contains_spec(ascii_lowercase(s@), needle) ==> contains_spec(r@, needle),
{
    s.to_lowercase()
}

/// Finds the alert for an already lowercased summary: the first keyword of the
/// table that occurs in it.
pub fn match_alert_lowered(lower: &str) -> (r: Option<(&'static str, &'static str)>)
    ensures
        opt_pair_view(r) == alert_for(lower@, alert_table()),
{
    let text = chars_of(lower);
    let table = alert_keywords();
    let n = table.len();
    assert(alert_table().skip(0) == alert_table());
    for i in 0..n
        invariant
            n == table@.len(),
            text@ == lower@,
            table_view(table@) == alert_table(),
            alert_for(lower@, alert_table()) == alert_for(lower@, alert_table().skip(i as int)),
    {
        let (keyword, icon, message) = table[i];
        let kw = chars_of(keyword);
        let ghost rest = alert_table().skip(i as int);
        proof {
            assert(table_view(table@)[i as int] == (keyword@, icon@, message@));
            assert(rest[0] == (keyword@, icon@, message@));
            assert(rest.drop_first() == alert_table().skip(i + 1));
        }
        if contains(text.as_slice(), kw.as_slice()) {
            return Some((icon, message));
        }
    }
    assert(alert_table().skip(3) =~= Seq::<(Seq<char>, Seq<char>, Seq<char>)>::empty());
    None
}

/// Check an event's summary against the alert table (case-insensitive substring
/// match). Returns (icon key, display message) on a match.
pub fn match_alert(summary: &str) -> (r: Option<(&'static str, &'static str)>)
    ensures
        opt_pair_view(r) == alert_for(lowercase_of(summary@), alert_table()),
        is_ascii_text(summary@) ==> opt_pair_view(r) == alert_for(ascii_lowercase(summary@), alert_table()),
        forall|k: int|
            0 <= k < alert_table().len() && #[trigger] contains_spec(ascii_lowercase(summary@), alert_table()[k].0)
                ==> exists|j: int|
                0 <= j <= k && opt_pair_view(r) == Some((alert_table()[j].1, alert_table()[j].2)),
{
    let lower = to_lowercase(summary);
    proof {
        assert forall|k: int|
            0 <= k < alert_table().len() && #[trigger] contains_spec(ascii_lowercase(summary@), alert_table()[k].0)
                implies exists|j: int|
                0 <= j <= k && alert_for(lower@, alert_table()) == Some((alert_table()[j].1, alert_table()[j].2)) by {
            lemma_keywords_ascii(k);
            law_keyword_found_in_any_case(summary@, lower@, k);
        }
    }
    match_alert_lowered(lower.as_str())
}

/// An icon alert in the bottom section: icon key and message.
pub struct AlertItem {
    pub icon: String,
    pub text: String,
}

impl View for AlertItem {
    type V = (Seq<char>, Seq<char>);

    open spec fn view(&self) -> (Seq<char>, Seq<char>) {
        (self.icon@, self.text@)
    }
}

/// Whether an alert with this icon is already listed.
pub open spec fn has_icon(alerts: Seq<(Seq<char>, Seq<char>)>, icon: Seq<char>) -> bool {
    exists|k: int| 0 <= k < alerts.len() && alerts[k].0 == icon
}

/// The summary used for alert matching: the event's summary, or empty text.
pub open spec fn summary_or_empty(summary: Option<Seq<char>>) -> Seq<char> {
    match summary {
        Some(s) => s,
        None => Seq::empty(),
    }
}

/// The alert an event raises: only an all-day event (no start time) whose
/// summary matches the alert table raises one.
pub open spec fn event_alert(e: (Option<Seq<char>>, Option<Seq<char>>)) -> Option<(Seq<char>, Seq<char>)> {
    if e.1 is None {
        alert_for(lowercase_of(summary_or_empty(e.0)), alert_table())
    } else {
        None
    }
}

/// Events split into plain list lines and alerts, in event order, before the
/// list is capped: an event that raises an alert adds it unless an alert with
/// the same icon is already there; every other event adds its line, if it has one.
pub open spec fn sort_events(events: Seq<(Option<Seq<char>>, Option<Seq<char>>)>) -> (Seq<Seq<char>>, Seq<(Seq<char>, Seq<char>)>)
    decreases events.len(),
{
    if events.len() == 0 {
        (Seq::empty(), Seq::empty())
    } else {
        let prev = sort_events(events.drop_last());
        let e = events.last();
        match event_alert(e) {
            Some(alert) => if has_icon(prev.1, alert.0) {
                prev
            } else {
                (prev.0, prev.1.push(alert))
            },
            None => match event_text(e.0, e.1) {
                Some(line) => (prev.0.push(line), prev.1),
                None => prev,
            },
        }
    }
}

/// How many plain lines fit above the given number of alerts (unlimited with none).
pub open spec fn item_cap(alert_count: int) -> int {
    if alert_count == 0 {
        usize::MAX as int
    } else if alert_count == 1 {
        8
    } else if alert_count == 2 {
        5
    } else {
        2
    }
}

/// The `"+N more"` line that stands for `hidden` lines that did not fit.
pub open spec fn more_line(hidden: nat) -> Seq<char> {
    seq!['+'] + decimal(hidden) + " more"@
}

/// The first `cap` lines, followed by a `"+N more"` line when some were cut.
pub open spec fn cap_lines(lines: Seq<Seq<char>>, cap: int) -> Seq<Seq<char>> {
    if lines.len() > cap {
        lines.take(cap).push(more_line((lines.len() - cap) as nat))
    } else {
        lines
    }
}

/// Today's plain lines (capped) and alerts for a list of events.
pub open spec fn today_lists_spec(events: Seq<(Option<Seq<char>>, Option<Seq<char>>)>) -> (Seq<Seq<char>>, Seq<(Seq<char>, Seq<char>)>) {
    let sorted = sort_events(events);
    (cap_lines(sorted.0, item_cap(sorted.1.len() as int)), sorted.1)
}

/// The views of a sequence of events.
pub open spec fn events_view(events: Seq<CalendarEvent>) -> Seq<(Option<Seq<char>>, Option<Seq<char>>)> {
    events.map_values(|e: CalendarEvent| e@)
}

/// The text of a sequence of strings.
pub open spec fn strings_view(v: Seq<String>) -> Seq<Seq<char>> {
    v.map_values(|s: String| s@)
}

/// The views of a sequence of alerts.
pub open spec fn alerts_view(v: Seq<AlertItem>) -> Seq<(Seq<char>, Seq<char>)> {
    v.map_values(|a: AlertItem| a@)
}

fn alert_listed(alerts: &Vec<AlertItem>, icon: &str) -> (r: bool)
    ensures
        r == has_icon(alerts_view(alerts@), icon@),
{
    let icon_chars = chars_of(icon);
    let n = alerts.len();
    for i in 0..n
        invariant
            n == alerts@.len(),
            icon_chars@ == icon@,
            forall|k: int| 0 <= k < i ==> alerts_view(alerts@)[k].0 != icon@,
    {
        let listed = chars_of(alerts[i].icon.as_str());
        if chars_are(listed.as_slice(), icon) {
            assert(alerts_view(alerts@)[i as int].0 == icon@);
            return true;
        }
    }
    false
}

fn summary_text(event: &CalendarEvent) -> (r: &str)
    ensures
        r@ == summary_or_empty(event@.0),
{
    match &event.summary {
        Some(s) => s.as_str(),
        None => {
            proof {
                reveal_strlit("");
            }
            ""
        },
    }
}

/// Splits today's events into plain list lines and icon alerts (one alert per
/// icon, all-day events only) and caps the plain list so that it leaves room
/// for the alerts, ending it with a `"+N more"` line when lines were cut.
pub fn today_lists(events: &[CalendarEvent]) -> (r: (Vec<String>, Vec<AlertItem>))
    ensures
        (strings_view(r.0@), alerts_view(r.1@)) == today_lists_spec(events_view(events@)),
{
    let mut items: Vec<String> = Vec::new();
    let mut alerts: Vec<AlertItem> = Vec::new();
    let n = events.len();
    let ghost ev = events_view(events@);
    for i in 0..n
        invariant
            n == events@.len(),
            ev == events_view(events@),
            (strings_view(items@), alerts_view(alerts@)) == sort_events(ev.take(i as int)),
    {
        let event = &events[i];
        proof {
            assert(ev.take(i + 1).drop_last() == ev.take(i as int));
            assert(ev.take(i + 1).last() == event@);
        }
        let summary = summary_text(event);
        let all_day = event.start_date_time.is_none();
        let matched = if all_day { match_alert(summary) } else { None };
        proof {
            assert(opt_pair_view(matched) == event_alert(event@));
        }
        match matched {
            Some((icon, message)) => {
                if !alert_listed(&alerts, icon) {
                    let ghost before = alerts_view(alerts@);
                    alerts.push(AlertItem { icon: String::from_str(icon), text: String::from_str(message) });
                    assert(alerts_view(alerts@) =~= before.push((icon@, message@)));
                }
            },
            None => {
                match format_event_text(event) {
                    Some(line) => {
                        let ghost before = strings_view(items@);
                        let ghost line_text = line@;
                        items.push(line);
                        assert(strings_view(items@) =~= before.push(line_text));
                    },
                    None => {},
                }
            },
        }
    }
    assert(ev.take(n as int) == ev);
    let cap: usize = if alerts.len() == 0 {
        usize::MAX
    } else if alerts.len() == 1 {
        8
    } else if alerts.len() == 2 {
        5
    } else {
        2
    };
    let ghost sorted = sort_events(ev);
    assert(alerts_view(alerts@).len() == alerts@.len());
    assert(strings_view(items@).len() == items@.len());
    assert(cap as int == item_cap(sorted.1.len() as int));
    if items.len() > cap {
        let hidden = items.len() - cap;
        let ghost all = strings_view(items@);
        items.truncate(cap);
        let mut more: Vec<char> = Vec::new();
        more.push('+');
        let digits = decimal_of(hidden as u64);
        append_chars(&mut more, digits.as_slice());
        append_str(&mut more, " more");
        let more_text = string_of(more.as_slice());
        assert(more_text@ =~= more_line(hidden as nat));
        items.push(more_text);
        assert(strings_view(items@) =~= all.take(cap as int).push(more_line(hidden as nat)));
    }
    (items, alerts)
}

proof fn lemma_sort_events_alerts(events: Seq<(Option<Seq<char>>, Option<Seq<char>>)>)
    ensures
        forall|a: int, b: int|
            0 <= a < b < sort_events(events).1.len() ==> #[trigger] sort_events(events).1[a].0
                != #[trigger] sort_events(events).1[b].0,
        forall|j: int|
            0 <= j < events.len() && #[trigger] event_alert(events[j]) is Some ==> has_icon(
                sort_events(events).1,
                event_alert(events[j]).unwrap().0,
            ),
    decreases events.len(),
{
    if events.len() > 0 {
        let init = events.drop_last();
        lemma_sort_events_alerts(init);
        let prev = sort_events(init);
        let e = events.last();
        let cur = sort_events(events);
        assert forall|j: int| 0 <= j < init.len() implies #[trigger] init[j] == events[j] by {}
        assert(cur.1 == prev.1 || (event_alert(e) is Some && !has_icon(prev.1, event_alert(e).unwrap().0)
            && cur.1 == prev.1.push(event_alert(e).unwrap())));
        assert forall|a: int, b: int| 0 <= a < b < cur.1.len() implies #[trigger] cur.1[a].0 != #[trigger] cur.1[b].0 by {
            if b < prev.1.len() {
                assert(cur.1[a] == prev.1[a]);
                assert(cur.1[b] == prev.1[b]);
            } else {
                assert(cur.1[a] == prev.1[a]);
                if cur.1[a].0 == cur.1[b].0 {
                    assert(has_icon(prev.1, cur.1[b].0));
                }
            }
        }
        assert forall|j: int| 0 <= j < events.len() && #[trigger] event_alert(events[j]) is Some implies has_icon(
            cur.1,
            event_alert(events[j]).unwrap().0,
        ) by {
            if j < init.len() {
                assert(events[j] == init[j]);
                let icon = event_alert(events[j]).unwrap().0;
                assert(has_icon(prev.1, icon));
                let k = choose|k: int| 0 <= k < prev.1.len() && prev.1[k].0 == icon;
                assert(cur.1[k] == prev.1[k]);
            } else {
                assert(events[j] == e);
                if !has_icon(prev.1, event_alert(e).unwrap().0) {
                    assert(cur.1[prev.1.len() as int].0 == event_alert(e).unwrap().0);
                }
            }
        }
    }
}

/// No icon appears twice among today's alerts, however many all-day events
/// match the same keyword.
pub proof fn law_alert_icons_distinct(events: Seq<(Option<Seq<char>>, Option<Seq<char>>)>)
    ensures
        forall|a: int, b: int|
            0 <= a < b < today_lists_spec(events).1.len() ==> #[trigger] today_lists_spec(events).1[a].0
                != #[trigger] today_lists_spec(events).1[b].0,
{
    lemma_sort_events_alerts(events);
}

/// Every alert shown comes from an all-day event whose summary matches the
/// alert table; a timed event never raises one.
pub proof fn law_alerts_from_all_day_events(events: Seq<(Option<Seq<char>>, Option<Seq<char>>)>)
    ensures
        today_lists_spec(events).1 == sort_events(events).1,
        forall|k: int|
            #![trigger sort_events(events).1[k]]
            0 <= k < sort_events(events).1.len() ==> exists|j: int|
                0 <= j < events.len() && events[j].1 is None && #[trigger] event_alert(events[j])
                    === Some(sort_events(events).1[k]),
    decreases events.len(),
{
    if events.len() > 0 {
        let init = events.drop_last();
        law_alerts_from_all_day_events(init);
        let prev = sort_events(init);
        let e = events.last();
        let cur = sort_events(events);
        assert(cur.1 == prev.1 || (event_alert(e) is Some && cur.1 == prev.1.push(event_alert(e).unwrap())));
        assert forall|k: int| #![trigger cur.1[k]] 0 <= k < cur.1.len() implies exists|j: int|
            0 <= j < events.len() && events[j].1 is None && #[trigger] event_alert(events[j]) === Some(cur.1[k]) by {
            if k < prev.1.len() {
                assert(cur.1[k] == prev.1[k]);
                let j = choose|j: int| 0 <= j < init.len() && init[j].1 is None && #[trigger] event_alert(init[j]) === Some(prev.1[k]);
                assert(events[j] == init[j]);
                assert(event_alert(events[j]) === Some(cur.1[k]));
            } else {
                assert(events[events.len() - 1] == e);
                assert(event_alert(events[events.len() - 1]) === Some(cur.1[k]));
            }
        }
    }
}

/// A timed event (one with a start time) never raises an alert.
pub proof fn law_timed_events_never_alert(e: (Option<Seq<char>>, Option<Seq<char>>))
    requires
        e.1 is Some,
    ensures
        event_alert(e) is None,
{
}

/// Every all-day event that matches a keyword is represented by an alert with
/// its icon.
pub proof fn law_matching_events_shown(events: Seq<(Option<Seq<char>>, Option<Seq<char>>)>)
    ensures
        forall|j: int|
            0 <= j < events.len() && #[trigger] event_alert(events[j]) is Some ==> has_icon(
                today_lists_spec(events).1,
                event_alert(events[j]).unwrap().0,
            ),
{
    lemma_sort_events_alerts(events);
}

/// The plain list never holds more than the cap for the number of alerts, plus
/// one `"+N more"` line; when lines are cut, the kept lines are the first ones
/// and that last line counts exactly the lines cut.
pub proof fn law_plain_list_capped(events: Seq<(Option<Seq<char>>, Option<Seq<char>>)>)
    ensures
        ({
            let sorted = sort_events(events);
            let shown = today_lists_spec(events).0;
            let cap = item_cap(sorted.1.len() as int);
            &&& shown.len() <= cap + 1
            &&& sorted.0.len() > cap ==> shown == sorted.0.take(cap).push(
                more_line((sorted.0.len() - cap) as nat),
            )
            &&& sorted.0.len() <= cap ==> shown == sorted.0
        }),
{
}

/// For ASCII text, keyword matching ignores case: when row `k`'s keyword occurs
/// in the summary in any mix of upper and lower case, and no earlier row's
/// keyword does, the summary raises row `k`'s alert.
pub proof fn law_keyword_matches_any_ascii_case(summary: Seq<char>, k: int, i: int)
    requires
        0 <= k < alert_table().len(),
        occurs_at(ascii_lowercase(summary), alert_table()[k].0, i),
        forall|j: int| 0 <= j < k ==> !contains_spec(ascii_lowercase(summary), #[trigger] alert_table()[j].0),
    ensures
        alert_for(ascii_lowercase(summary), alert_table()) == Some((alert_table()[k].1, alert_table()[k].2)),
{
    let lower = ascii_lowercase(summary);
    let t = alert_table();
    assert(contains_spec(lower, t[k].0));
    assert(t.drop_first() =~= seq![t[1], t[2]]);
    assert(t.drop_first().drop_first() =~= seq![t[2]]);
    let t1 = t.drop_first();
    let t2 = t1.drop_first();
    assert(t1[0] == t[1]);
    assert(t2[0] == t[2]);
    if k == 0 {
        assert(alert_for(lower, t) == Some((t[0].1, t[0].2)));
    } else if k == 1 {
        assert(!contains_spec(lower, t[0].0));
        assert(alert_for(lower, t) == alert_for(lower, t1));
        assert(contains_spec(lower, t1[0].0));
        assert(alert_for(lower, t1) == Some((t1[0].1, t1[0].2)));
    } else {
        assert(!contains_spec(lower, t[0].0));
        assert(!contains_spec(lower, t[1].0));
        assert(alert_for(lower, t) == alert_for(lower, t1));
        assert(alert_for(lower, t1) == alert_for(lower, t2));
        assert(contains_spec(lower, t2[0].0));
        assert(alert_for(lower, t2) == Some((t2[0].1, t2[0].2)));
    }
}

/// A summary reading "Trash" raises the trash alert.
pub proof fn law_capitalised_trash_matches()
    ensures
        is_ascii_text("Trash"@),
        alert_for(ascii_lowercase("Trash"@), alert_table()) == Some(("trash"@, "Take out the trash!"@)),
{
    reveal_strlit("Trash");
    reveal_strlit("trash");
    let lower = ascii_lowercase("Trash"@);
    assert(lower =~= "trash"@);
    assert(lower.subrange(0, 5) =~= "trash"@);
    assert(occurs_at(lower, "trash"@, 0));
}

/// Each alert keyword is ASCII text.
proof fn lemma_keywords_ascii(k: int)
    requires
        0 <= k < alert_table().len(),
    ensures
        is_ascii_text(alert_table()[k].0),
{
    reveal_strlit("trash");
    reveal_strlit("recycling");
    reveal_strlit("leaves");
    assert("trash"@ =~= seq!['t', 'r', 'a', 's', 'h']);
    assert("recycling"@ =~= seq!['r', 'e', 'c', 'y', 'c', 'l', 'i', 'n', 'g']);
    assert("leaves"@ =~= seq!['l', 'e', 'a', 'v', 'e', 's']);
}

/// Keyword matching ignores ASCII case in every summary, ASCII or not: when
/// `lower` holds every ASCII text that the ASCII-lowercased summary holds (as
/// `str::to_lowercase` does) and row `k`'s keyword occurs in the summary in
/// any mix of upper and lower case, the summary raises an alert, that of row
/// `k` or of an earlier row.
pub proof fn law_keyword_found_in_any_case(summary: Seq<char>, lower: Seq<char>, k: int)
    requires
        0 <= k < alert_table().len(),
        contains_spec(ascii_lowercase(summary), alert_table()[k].0),
        forall|needle: Seq<char>|
            is_ascii_text(needle) && #[trigger] contains_spec(ascii_lowercase(summary), needle) ==> contains_spec(lower, needle),
    ensures
        exists|j: int| 0 <= j <= k && alert_for(lower, alert_table()) == Some((alert_table()[j].1, alert_table()[j].2)),
{
    let t = alert_table();
    lemma_keywords_ascii(k);
    assert(contains_spec(lower, t[k].0));
    assert(t.drop_first() =~= seq![t[1], t[2]]);
    assert(t.drop_first().drop_first() =~= seq![t[2]]);
    let t1 = t.drop_first();
    let t2 = t1.drop_first();
    assert(t1[0] == t[1]);
    assert(t2[0] == t[2]);
    if contains_spec(lower, t[0].0) {
        assert(alert_for(lower, t) == Some((t[0].1, t[0].2)));
    } else if contains_spec(lower, t[1].0) {
        assert(alert_for(lower, t) == alert_for(lower, t1));
        assert(alert_for(lower, t1) == Some((t1[0].1, t1[0].2)));
    } else {
        assert(k == 2);
        assert(alert_for(lower, t) == alert_for(lower, t1));
        assert(alert_for(lower, t1) == alert_for(lower, t2));
        assert(alert_for(lower, t2) == Some((t2[0].1, t2[0].2)));
    }
}

} // verus!
