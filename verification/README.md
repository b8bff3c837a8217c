# kindle_dashboard

A Kindle e-ink dashboard (time, weather, today's calendar items and alerts
from Home Assistant), with its logic verified by Verus.

- `src/` — the verified library:
  - `text.rs`, `numbers.rs`: character-sequence helpers (trimming, splitting,
    substring search, byte-offset slicing) and integer parsing/formatting;
  - `date.rs`: stepping a `YYYY-MM-DD` string to the next day;
  - `calendar.rs`: the calendar request window, event lines, keyword alerts
    and the capped "today" list;
  - `weather.rs`: icon keys and wording for weather conditions;
  - `refresh.rs`: one refresh as a state machine over the dashboard content;
  - `config.rs`: token, URL, battery, clock and `date` output handling;
  - `device.rs`: the device overrides applied on start and wake;
  - `backend.rs`: suspend, poll and gray-level decisions of the display loop.
- `app/` — the program around it: files, processes, HTTP and the refresh loop.
- `tests/` — tests of the library on concrete values.
