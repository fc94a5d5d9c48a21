use footical::routing::{feed_team_id, route_calendar_request, CalendarRoute};

fn feed(route: CalendarRoute) -> Option<String> {
    match route {
        CalendarRoute::ServeFeed(path) => Some(path),
        _ => None,
    }
}

#[test]
fn other_hosts_pass() {
    assert!(matches!(route_calendar_request(Some("footical.club"), "/x.ics", None), CalendarRoute::PassThrough));
    assert!(matches!(route_calendar_request(None, "/x.ics", None), CalendarRoute::PassThrough));
}

#[test]
fn calendar_host_serves_feeds() {
    assert_eq!(
        feed(route_calendar_request(Some("calendar.footical.club"), "/42.ics", None)),
        Some("/ical/42.ics".to_string())
    );
    assert_eq!(
        feed(route_calendar_request(Some("calendar.footical.club:443"), "/42.ics", Some("v=1"))),
        Some("/ical/42.ics?v=1".to_string())
    );
}

#[test]
fn calendar_host_passes_feed_paths_and_redirects_the_rest() {
    assert!(matches!(
        route_calendar_request(Some("calendar.footical.club"), "/ical/42.ics", None),
        CalendarRoute::PassThrough
    ));
    assert!(matches!(
        route_calendar_request(Some("calendar.footical.club"), "/", None),
        CalendarRoute::RedirectToMainSite
    ));
}

#[test]
fn feed_file_names_name_teams() {
    assert_eq!(feed_team_id("42.ics"), Some(42));
    assert_eq!(feed_team_id("-7.ics"), Some(-7));
    assert_eq!(feed_team_id("42"), None);
    assert_eq!(feed_team_id("team.ics"), None);
    assert_eq!(feed_team_id(".ics"), None);
    assert_eq!(feed_team_id("99999999999.ics"), None);
}
