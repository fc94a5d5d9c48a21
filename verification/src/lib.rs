//! Fixture calendars for five-a-side football leagues: scraping league pages,
//! building iCalendar feeds, and the small rules of the squad and subscription pages.

pub mod auth;
pub mod config;
pub mod datetime;
pub mod fixture_list;
pub mod folding;
pub mod generate;
pub mod html;
pub mod ingest;
pub mod ical;
pub mod money;
pub mod month_view;
pub mod parse;
pub mod routing;
pub mod schedule;
pub mod scrape;
pub mod search;
pub mod secrets;
pub mod squad;
pub mod scrape_runs;
pub mod scrape_steps;
pub mod subscribe;
pub mod text;
pub mod today;
