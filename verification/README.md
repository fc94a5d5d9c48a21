# footical

Fixture calendars for five-a-side football leagues.

The library (`src/`, verified with Verus) holds the logic:

- `parse`, `html` — reading the league site's pages (through the `scraper` and `regex` crates);
- `scrape`, `scrape_steps`, `ingest`, `scrape_runs`, `schedule` — what a scrape stores, in what
  shape and order, and when it runs;
- `ical`, `folding`, `generate`, `datetime` — the iCalendar feeds and the static export;
- `subscribe`, `search`, `fixture_list`, `month_view`, `today` — the decisions of the web pages;
- `squad`, `money` — the squad's fines and payments;
- `auth`, `routing`, `config`, `secrets` — sessions, the calendar host, and start-up settings;
- `text` — the text operations the rest is built from.

`app/` is the program around it: the generator, one-off scrapes, and the web server with its
nightly scrape. `tests/` exercises the library.
