//! One dashboard refresh as a state machine: the caller reports what it read
//! or fetched, and each step updates the dashboard and says what to fetch next.

use vstd::prelude::*;
use std::borrow::Cow;
use crate::calendar::{
    alerts_view, events_view, strings_view, today_lists, today_lists_spec, AlertItem, CalendarEvent,
};
use crate::text::{chars_are, chars_of};
use crate::weather::{display_name_for, display_name_spec, icon_key_for, icon_key_spec};

verus! {

/// Everything a refresh writes on the screen.
pub struct Dashboard {
    pub time_text: String,
    pub date_text: String,
    pub battery_text: String,
    pub weather_icon: String,
    pub weather_text: String,
    pub today_items: Vec<String>,
    pub today_alerts: Vec<AlertItem>,
    pub washer_done: bool,
}

/// The dashboard's content as text.
pub struct DashboardModel {
    pub time_text: Seq<char>,
    pub date_text: Seq<char>,
    pub battery_text: Seq<char>,
    pub weather_icon: Seq<char>,
    pub weather_text: Seq<char>,
    pub today_items: Seq<Seq<char>>,
    pub today_alerts: Seq<(Seq<char>, Seq<char>)>,
    pub washer_done: bool,
}

impl View for Dashboard {
    type V = DashboardModel;

    open spec fn view(&self) -> DashboardModel {
        DashboardModel {
            time_text: self.time_text@,
            date_text: self.date_text@,
            battery_text: self.battery_text@,
            weather_icon: self.weather_icon@,
            weather_text: self.weather_text@,
            today_items: strings_view(self.today_items@),
            today_alerts: alerts_view(self.today_alerts@),
            washer_done: self.washer_done,
        }
    }
}

/// What the weather entity reported: its `state` text, if it is a string, and
/// its temperature already written as a whole number of degrees, if it has one.
pub struct WeatherReading {
    pub condition: Option<String>,
    pub temperature_text: Option<String>,
}

/// What the caller hands back to the refresh.
pub enum RefreshEvent {
    /// The clock texts and battery reading were taken and the token file was
    /// read (`token_present` is false when it is missing or empty).
    Started { time_text: String, date_text: String, battery: Option<String>, token_present: bool },
    /// The washer helper's state: `None` when the fetch failed, `Some(None)`
    /// when the reply held no string `state`.
    WasherFetched(Option<Option<String>>),
    /// The weather entity: `None` when the fetch failed.
    WeatherFetched(Option<WeatherReading>),
    /// Today's calendar events (empty when the fetch failed).
    EventsFetched(Vec<CalendarEvent>),
}

/// What the refresh needs next.
#[derive(PartialEq, Eq, Structural, Clone, Copy, Debug)]
pub enum RefreshAction {
    FetchWasher,
    FetchWeather,
    FetchCalendar,
    Done,
}

/// A `RefreshEvent` as text.
pub enum RefreshEventModel {
    Started { time_text: Seq<char>, date_text: Seq<char>, battery: Option<Seq<char>>, token_present: bool },
    WasherFetched(Option<Option<Seq<char>>>),
    WeatherFetched(Option<(Option<Seq<char>>, Option<Seq<char>>)>),
    EventsFetched(Seq<(Option<Seq<char>>, Option<Seq<char>>)>),
}

/// The text held by an optional string.
pub open spec fn opt_string(o: Option<String>) -> Option<Seq<char>> {
    match o {
        Some(s) => Some(s@),
        None => None,
    }
}

impl View for RefreshEvent {
    type V = RefreshEventModel;

    open spec fn view(&self) -> RefreshEventModel {
        match self {
            RefreshEvent::Started { time_text, date_text, battery, token_present } => RefreshEventModel::Started {
                time_text: time_text@,
                date_text: date_text@,
                battery: opt_string(*battery),
                token_present: *token_present,
            },
            RefreshEvent::WasherFetched(r) => RefreshEventModel::WasherFetched(
                match r {
                    None => None,
                    Some(state) => Some(opt_string(*state)),
                },
            ),
            RefreshEvent::WeatherFetched(r) => RefreshEventModel::WeatherFetched(
                match r {
                    None => None,
                    Some(w) => Some((opt_string(w.condition), opt_string(w.temperature_text))),
                },
            ),
            RefreshEvent::EventsFetched(events) => RefreshEventModel::EventsFetched(events_view(events@)),
        }
    }
}

/// The washer state after a fetch: `"on"` means done, any other state string
/// means not done, and a failed fetch or a reply without a state keeps the
/// previous value (a dropped connection must not clear a real alert).
pub open spec fn washer_after(previous: bool, fetched: Option<Option<Seq<char>>>) -> bool {
    match fetched {
        Some(Some(state)) => state == "on"@,
        _ => previous,
    }
}

/// The weather line: `"71°F, Partly Cloudy"` with a temperature, just the
/// label without one.
pub open spec fn weather_line(condition: Seq<char>, temperature: Option<Seq<char>>) -> Seq<char> {
    match temperature {
        Some(t) => t + "\u{00B0}F, "@ + display_name_spec(condition),
        None => display_name_spec(condition),
    }
}

/// One refresh step: the dashboard after the event, and what to do next.
pub open spec fn refresh_step_spec(d: DashboardModel, e: RefreshEventModel) -> (DashboardModel, RefreshAction) {
    match e {
        RefreshEventModel::Started { time_text, date_text, battery, token_present } => {
            let shown = DashboardModel {
                time_text,
                date_text,
                battery_text: match battery {
                    Some(b) => b,
                    None => d.battery_text,
                },
                ..d
            };
            if token_present {
                (shown, RefreshAction::FetchWasher)
            } else {
                (
                    DashboardModel {
                        weather_text: "(no token)"@,
                        today_items: Seq::empty(),
                        today_alerts: Seq::empty(),
                        washer_done: false,
                        ..shown
                    },
                    RefreshAction::Done,
                )
            }
        },
        RefreshEventModel::WasherFetched(fetched) => {
            let washer = washer_after(d.washer_done, fetched);
            (
                DashboardModel { washer_done: washer, ..d },
                if washer { RefreshAction::Done } else { RefreshAction::FetchWeather },
            )
        },
        RefreshEventModel::WeatherFetched(reading) => match reading {
            None => (
                DashboardModel { weather_icon: "default"@, weather_text: "(offline)"@, ..d },
                RefreshAction::FetchCalendar,
            ),
            Some((condition, temperature)) => {
                let c = match condition {
                    Some(c) => c,
                    None => "(offline)"@,
                };
                (
                    DashboardModel { weather_icon: icon_key_spec(c), weather_text: weather_line(c, temperature), ..d },
                    RefreshAction::FetchCalendar,
                )
            },
        },
        RefreshEventModel::EventsFetched(events) => {
            let lists = today_lists_spec(events);
            (DashboardModel { today_items: lists.0, today_alerts: lists.1, ..d }, RefreshAction::Done)
        },
    }
}

/// Advances a refresh by one event, updating the dashboard.
pub fn refresh_step(dash: &mut Dashboard, event: RefreshEvent) -> (action: RefreshAction)
    ensures
        (final(dash)@, action) == refresh_step_spec(old(dash)@, event@),
{
    match event {
        RefreshEvent::Started { time_text, date_text, battery, token_present } => {
            dash.time_text = time_text;
            dash.date_text = date_text;
            match battery {
                Some(b) => {
                    dash.battery_text = b;
                },
                None => {},
            }
            if token_present {
                RefreshAction::FetchWasher
            } else {
                dash.weather_text = String::from_str("(no token)");
                dash.today_items = Vec::new();
                dash.today_alerts = Vec::new();
                dash.washer_done = false;
                proof {
                    assert(strings_view(dash.today_items@) =~= Seq::<Seq<char>>::empty());
                    assert(alerts_view(dash.today_alerts@) =~= Seq::<(Seq<char>, Seq<char>)>::empty());
                }
                RefreshAction::Done
            }
        },
        RefreshEvent::WasherFetched(fetched) => {
            match fetched {
                Some(Some(state)) => {
                    let s = chars_of(state.as_str());
                    dash.washer_done = chars_are(s.as_slice(), "on");
                },
                _ => {},
            }
            if dash.washer_done {
                RefreshAction::Done
            } else {
                RefreshAction::FetchWeather
            }
        },
        RefreshEvent::WeatherFetched(reading) => {
            match reading {
                None => {
                    dash.weather_icon = String::from_str("default");
                    dash.weather_text = String::from_str("(offline)");
                },
                Some(w) => {
                    let condition = match w.condition {
                        Some(c) => c,
                        None => String::from_str("(offline)"),
                    };
                    dash.weather_icon = String::from_str(icon_key_for(condition.as_str()));
                    let label: String = match display_name_for(condition.as_str()) {
                        Cow::Borrowed(fixed) => String::from_str(fixed),
                        Cow::Owned(built) => built,
                    };
                    dash.weather_text = match w.temperature_text {
                        Some(t) => {
                            let mut text = t;
                            text.append("\u{00B0}F, ");
                            text.append(label.as_str());
                            text
                        },
                        None => label,
                    };
                },
            }
            RefreshAction::FetchCalendar
        },
        RefreshEvent::EventsFetched(events) => {
            let (items, alerts) = today_lists(events.as_slice());
            dash.today_items = items;
            dash.today_alerts = alerts;
            RefreshAction::Done
        },
    }
}

/// A failed washer fetch, or a reply without a state, keeps the washer alert
/// as it was, and the step touches nothing else on the screen.
pub proof fn law_washer_kept_when_unknown(d: DashboardModel, fetched: Option<Option<Seq<char>>>)
    requires
        !(fetched matches Some(Some(_))),
    ensures
        refresh_step_spec(d, RefreshEventModel::WasherFetched(fetched)).0 == d,
{
}

/// While the washer is done, the refresh ends right after the washer fetch:
/// neither the weather nor the calendar is fetched, and neither is touched.
pub proof fn law_washer_done_ends_refresh(d: DashboardModel, fetched: Option<Option<Seq<char>>>)
    ensures
        ({
            let (after, action) = refresh_step_spec(d, RefreshEventModel::WasherFetched(fetched));
            &&& after.washer_done ==> action == RefreshAction::Done
            &&& !after.washer_done ==> action == RefreshAction::FetchWeather
            &&& after.weather_text == d.weather_text
            &&& after.today_items == d.today_items
            &&& after.today_alerts == d.today_alerts
        }),
{
}

/// Without a token nothing is fetched, and nothing stale stays up: the
/// weather line says "(no token)", both lists are cleared and the washer
/// alert is off.
pub proof fn law_missing_token_clears(
    d: DashboardModel,
    time_text: Seq<char>,
    date_text: Seq<char>,
    battery: Option<Seq<char>>,
)
    ensures
        ({
            let (after, action) = refresh_step_spec(
                d,
                RefreshEventModel::Started { time_text, date_text, battery, token_present: false },
            );
            &&& action == RefreshAction::Done
            &&& after.weather_text == "(no token)"@
            &&& after.today_items.len() == 0
            &&& after.today_alerts.len() == 0
            &&& !after.washer_done
            &&& after.time_text == time_text
            &&& after.date_text == date_text
        }),
{
}

/// The fetch order of a refresh with a token: washer, then (unless the washer
/// is done) weather, then calendar, then done, whatever each fetch returned.
pub proof fn law_refresh_order(
    d: DashboardModel,
    time_text: Seq<char>,
    date_text: Seq<char>,
    battery: Option<Seq<char>>,
    weather: Option<(Option<Seq<char>>, Option<Seq<char>>)>,
    events: Seq<(Option<Seq<char>>, Option<Seq<char>>)>,
)
    ensures
        refresh_step_spec(
            d,
            RefreshEventModel::Started { time_text, date_text, battery, token_present: true },
        ).1 == RefreshAction::FetchWasher,
        refresh_step_spec(d, RefreshEventModel::WeatherFetched(weather)).1 == RefreshAction::FetchCalendar,
        refresh_step_spec(d, RefreshEventModel::EventsFetched(events)).1 == RefreshAction::Done,
        refresh_step_spec(d, RefreshEventModel::EventsFetched(events)).0.washer_done == d.washer_done,
{
}

} // verus!
