use simpl::book::{compose, fill_hours, fill_since, format_note, parse_time_spec, Quantity, TimeSpec};
use simpl::catalog::{listing_order, select, HourType, Project, Service};
use simpl::command::{
    show_range, Action, BookCommand, Command, Event, LinkCommand, Session, ShowCommand, Stage,
    Submission,
};
use simpl::date::{
    elapsed_seconds, format_date, format_timestamp, parse_timestamp, week_range, Date, DateTime,
};
use simpl::error::Error;
use simpl::hours::{day_groups, format_hours, logged_hour, HourRecord};
use simpl::link::{Link, LinkStore};
use simpl::remote::{hours_filter, service_filter, Pager};
use simpl::table::Tabulate;

fn link(alias: &str, project: &str) -> Link {
    Link {
        alias: alias.to_string(),
        project_id: project.to_string(),
        service_id: format!("{}-service", project),
        hour_type_id: "ht".to_string(),
        description: format!("Dev for {}", project),
    }
}

fn at(y: u32, mo: u32, d: u32, h: u32, mi: u32, s: u32) -> DateTime {
    DateTime { date: Date { year: y, month: mo, day: d }, hour: h, minute: mi, second: s }
}

fn record(start: Option<&str>, hundredths: i32) -> HourRecord {
    HourRecord {
        project_name: Some("Proj".to_string()),
        service: None,
        note: None,
        hundredths,
        start_date: start.map(|s| s.to_string()),
    }
}

#[test]
fn resolve_after_upsert_gives_link_back() {
    let mut store = LinkStore::new();
    store.upsert(link("api", "p1"));
    let got = Link::from_alias(&store, &"api".to_string()).unwrap();
    assert_eq!(got.alias, "api");
    assert_eq!(got.project_id, "p1");
    assert_eq!(got.service_id, "p1-service");
    assert_eq!(got.description, "Dev for p1");
}

#[test]
fn unknown_alias_is_an_error() {
    let store = LinkStore::from_links(vec![link("api", "p1")]);
    assert_eq!(Link::from_alias(&store, &"web".to_string()).unwrap_err(), Error::UnknownAlias);
}

#[test]
fn removing_an_absent_alias_changes_nothing() {
    let mut store = LinkStore::from_links(vec![link("api", "p1"), link("web", "p2")]);
    store.remove(&"nothing".to_string());
    assert_eq!(store.links.len(), 2);
    assert_eq!(store.links[0].alias, "api");
    assert_eq!(store.links[1].alias, "web");
    store.remove(&"api".to_string());
    assert_eq!(store.links.len(), 1);
    assert!(store.get(&"api".to_string()).is_none());
}

#[test]
fn upsert_again_replaces_the_link() {
    let mut store = LinkStore::new();
    store.upsert(link("api", "p1"));
    store.upsert(link("api", "p2"));
    assert_eq!(store.links.len(), 1);
    let got = store.get(&"api".to_string()).unwrap();
    assert_eq!(got.project_id, "p2");
    assert_eq!(got.service_id, "p2-service");
}

#[test]
fn from_links_keeps_the_last_of_an_alias() {
    let store = LinkStore::from_links(vec![link("a", "p1"), link("b", "p2"), link("a", "p3")]);
    assert_eq!(store.links.len(), 2);
    assert_eq!(store.get(&"a".to_string()).unwrap().project_id, "p3");
}

#[test]
fn literal_time_is_kept_whatever_the_note() {
    let t = parse_time_spec("2.5").unwrap();
    let q = match t {
        TimeSpec::Hours(q) => q,
        TimeSpec::Fill => panic!("not fill"),
    };
    assert_eq!(q, Quantity { units: 25, scale: 1 });
    let now = at(2024, 1, 1, 10, 0, 0);
    let l = link("api", "p1");
    let emp = "7".to_string();
    let a = compose(&l, &emp, q, &None, &None, None, now);
    let b = compose(&l, &emp, q, &Some(vec!["X-1".to_string()]), &Some("ctx".to_string()), None, now);
    assert_eq!(a.hours, q);
    assert_eq!(b.hours, q);
    assert_eq!(a.hours.units as f64 / 10f64.powi(a.hours.scale as i32), 2.5);
}

#[test]
fn time_spec_forms() {
    assert_eq!(parse_time_spec("fill").unwrap(), TimeSpec::Fill);
    assert_eq!(parse_time_spec("3").unwrap(), TimeSpec::Hours(Quantity { units: 3, scale: 0 }));
    assert_eq!(parse_time_spec(".75").unwrap(), TimeSpec::Hours(Quantity { units: 75, scale: 2 }));
    assert_eq!(parse_time_spec("1.").unwrap(), TimeSpec::Hours(Quantity { units: 1, scale: 0 }));
    assert_eq!(parse_time_spec("0.25").unwrap(), TimeSpec::Hours(Quantity { units: 25, scale: 2 }));
    for bad in ["", ".", "-1", "1.2.3", "abc", "1e3", "Fill", "1,5", "1234567890123456789"] {
        assert_eq!(parse_time_spec(bad).unwrap_err(), Error::InvalidTime, "{}", bad);
    }
}

#[test]
fn fill_after_37_minutes_books_three_quarters() {
    let now = at(2024, 3, 5, 10, 37, 0);
    let q = fill_since(Some(at(2024, 3, 5, 10, 0, 0)), now).unwrap();
    assert_eq!(q, Quantity { units: 75, scale: 2 });
}

#[test]
fn fill_after_95_minutes_books_one_and_three_quarters() {
    let now = at(2024, 3, 5, 11, 35, 30);
    let q = fill_since(Some(at(2024, 3, 5, 10, 0, 0)), now).unwrap();
    assert_eq!(q, Quantity { units: 175, scale: 2 });
}

#[test]
fn fill_rounds_the_rest_up_to_a_quarter() {
    assert_eq!(fill_hours(0).units, 25);
    assert_eq!(fill_hours(15).units, 25);
    assert_eq!(fill_hours(16).units, 50);
    assert_eq!(fill_hours(30).units, 50);
    assert_eq!(fill_hours(45).units, 75);
    assert_eq!(fill_hours(46).units, 100);
    assert_eq!(fill_hours(60).units, 125);
    assert_eq!(fill_hours(120).units, 225);
}

#[test]
fn fill_without_a_prior_entry_fails() {
    let now = at(2024, 3, 5, 10, 0, 0);
    assert_eq!(fill_since(None, now).unwrap_err(), Error::NoRecentEntry);
    assert_eq!(fill_since(Some(at(2024, 3, 5, 11, 0, 0)), now).unwrap_err(), Error::NoRecentEntry);
}

#[test]
fn fill_across_midnight() {
    let now = at(2024, 3, 1, 0, 20, 0);
    let q = fill_since(Some(at(2024, 2, 29, 23, 50, 0)), now).unwrap();
    assert_eq!(q.units, 50);
}

#[test]
fn note_from_tickets_and_context() {
    let tickets = Some(vec!["A-1".to_string(), "A-2".to_string()]);
    let context = Some("fixed bug".to_string());
    assert_eq!(format_note(&tickets, &context), "[A-1+A-2] fixed bug");
    assert_eq!(format_note(&None, &None), "");
    assert_eq!(format_note(&Some(vec!["B-7".to_string()]), &None), "[B-7] ");
    assert_eq!(format_note(&None, &Some("only".to_string())), "only");
}

#[test]
fn compose_starts_at_midnight_of_a_given_date() {
    let now = at(2024, 3, 5, 10, 0, 0);
    let e = compose(
        &link("api", "p1"),
        &"42".to_string(),
        Quantity { units: 1, scale: 0 },
        &None,
        &Some("x".to_string()),
        Some(Date { year: 2024, month: 2, day: 1 }),
        now,
    );
    assert_eq!(e.start_date, at(2024, 2, 1, 0, 0, 0));
    assert_eq!(e.employee_id, "42");
    assert_eq!(e.project_id, "p1");
    assert_eq!(e.hour_type_id, "ht");
    assert_eq!(e.note, "x");
    let e2 = compose(&link("api", "p1"), &"42".to_string(), Quantity { units: 1, scale: 0 }, &None, &None, None, now);
    assert_eq!(e2.start_date, now);
}

#[test]
fn day_groups_with_subtotals() {
    let records = vec![
        record(Some("2024-01-02 09:00:00"), 300),
        record(Some("2024-01-01 13:00:00"), 200),
        record(Some("2024-01-01 09:00:00"), 100),
    ];
    let groups = day_groups(records);
    assert_eq!(groups.len(), 2);
    assert_eq!(groups[0].header.as_deref(), Some("2024-01-01"));
    assert_eq!(groups[0].entries.len(), 2);
    assert_eq!(groups[0].entries[0].updated_at, "09:00:00");
    assert_eq!(groups[0].entries[1].updated_at, "13:00:00");
    assert_eq!(groups[0].total, 300);
    assert!(groups[0].shows_total());
    assert_eq!(format_hours(groups[0].total), "3");
    assert_eq!(groups[1].header.as_deref(), Some("2024-01-02"));
    assert_eq!(groups[1].entries.len(), 1);
    assert!(!groups[1].shows_total());
}

#[test]
fn entries_without_a_start_come_first_without_a_header() {
    let records = vec![record(Some("2024-01-01 09:00:00"), 100), record(None, 50), record(None, 25)];
    let groups = day_groups(records);
    assert_eq!(groups.len(), 2);
    assert_eq!(groups[0].header, None);
    assert_eq!(groups[0].entries.len(), 2);
    assert_eq!(groups[0].entries[0].updated_at, "unknown");
    assert_eq!(groups[0].total, 75);
    assert_eq!(groups[1].header.as_deref(), Some("2024-01-01"));
}

#[test]
fn day_groups_of_nothing() {
    assert!(day_groups(vec![]).is_empty());
}

#[test]
fn logged_hour_description() {
    let r = HourRecord {
        project_name: None,
        service: Some(None),
        note: Some("review".to_string()),
        hundredths: 150,
        start_date: Some("2024-01-01".to_string()),
    };
    let l = logged_hour(&r);
    assert_eq!(l.description, "Unnamed project / Unnamed Service: review");
    assert_eq!(l.updated_at, "no time");
    assert_eq!(l.time, 150);
    let r2 = HourRecord {
        project_name: Some("Site".to_string()),
        service: Some(Some("Build".to_string())),
        note: Some("".to_string()),
        hundredths: 0,
        start_date: None,
    };
    assert_eq!(logged_hour(&r2).description, "Site / Build");
}

#[test]
fn hours_are_written_without_trailing_zeros() {
    assert_eq!(format_hours(300), "3");
    assert_eq!(format_hours(250), "2.5");
    assert_eq!(format_hours(125), "1.25");
    assert_eq!(format_hours(5), "0.05");
    assert_eq!(format_hours(-50), "-0.5");
    assert_eq!(format_hours(0), "0");
}

#[test]
fn pager_stops_after_a_short_page() {
    let mut pager: Pager<u32> = Pager::new();
    assert_eq!(pager.next_offset(), Some(0));
    pager.accept((0..100).collect());
    assert_eq!(pager.next_offset(), Some(100));
    let params = pager.page_params(&vec![]);
    assert_eq!(params[0], ("limit".to_string(), "100".to_string()));
    assert_eq!(params[1], ("offset".to_string(), "100".to_string()));
    pager.accept(vec![]);
    assert_eq!(pager.next_offset(), None);
    assert_eq!(pager.into_items().len(), 100);
}

#[test]
fn page_params_carry_the_filter() {
    let pager: Pager<u32> = Pager::new();
    let extra = service_filter(&"p9".to_string());
    let params = pager.page_params(&extra);
    assert_eq!(params.len(), 3);
    assert_eq!(params[1], ("offset".to_string(), "0".to_string()));
    assert_eq!(params[2], ("q[project_id]".to_string(), "p9".to_string()));
}

#[test]
fn hours_filter_writes_timestamps() {
    let f = hours_filter(&"12".to_string(), at(2024, 1, 1, 0, 0, 0), at(2024, 1, 6, 23, 59, 59));
    assert_eq!(f[0], ("q[employee.id]".to_string(), "12".to_string()));
    assert_eq!(f[1], ("q[start_date][ge]".to_string(), "2024-01-01 00:00:00".to_string()));
    assert_eq!(f[2], ("q[start_date][le]".to_string(), "2024-01-06 23:59:59".to_string()));
}

#[test]
fn select_by_index() {
    assert_eq!(select(vec![10, 20, 30], 1).unwrap(), 20);
    assert_eq!(select(vec![10, 20, 30], 3).unwrap_err(), Error::InvalidSelection);
    assert_eq!(select(Vec::<u8>::new(), 0).unwrap_err(), Error::InvalidSelection);
}

#[test]
fn projects_listed_by_status_then_name() {
    let p = |name: &str, status: Option<&str>| Project {
        id: name.to_string(),
        name: name.to_string(),
        status_label: status.map(|s| s.to_string()),
        start_date: None,
        end_date: None,
    };
    let sorted = listing_order(vec![
        p("b", Some("tab_pactive")),
        p("z", None),
        p("a", Some("tab_pactive")),
        p("c", Some("closed")),
    ]);
    let names: Vec<&str> = sorted.iter().map(|x| x.name.as_str()).collect();
    assert_eq!(names, vec!["z", "c", "a", "b"]);
}

#[test]
fn services_and_hour_types_listed_by_name() {
    let s = |name: Option<&str>| Service {
        id: "i".to_string(),
        name: name.map(|n| n.to_string()),
        status: None,
        start_date: None,
        end_date: None,
    };
    let sorted = listing_order(vec![s(Some("b")), s(None), s(Some("a"))]);
    let names: Vec<Option<String>> = sorted.into_iter().map(|x| x.name).collect();
    assert_eq!(names, vec![None, Some("a".to_string()), Some("b".to_string())]);
    let h = |l: &str| HourType { id: l.to_string(), label: l.to_string() };
    let sorted = listing_order(vec![h("meeting"), h("development"), h("Zoom")]);
    let labels: Vec<String> = sorted.into_iter().map(|x| x.label).collect();
    assert_eq!(labels, vec!["Zoom", "development", "meeting"]);
}

#[test]
fn link_description_from_choice() {
    let project = Project { id: "p".to_string(), name: "Site".to_string(), status_label: None, start_date: None, end_date: None };
    let service = Service { id: "s".to_string(), name: None, status: None, start_date: None, end_date: None };
    let ht = HourType { id: "h".to_string(), label: "Development".to_string() };
    let l = Link::from_choice("site".to_string(), &project, &service, &ht);
    assert_eq!(l.description, "Development for Site - Unnamed Service");
    assert_eq!(l.project_id, "p");
    assert_eq!(l.service_id, "s");
    assert_eq!(l.hour_type_id, "h");
}

#[test]
fn week_range_is_monday_to_saturday() {
    let (mon, sat) = week_range(Date { year: 2024, month: 1, day: 3 });
    assert_eq!(mon, Date { year: 2024, month: 1, day: 1 });
    assert_eq!(sat, Date { year: 2024, month: 1, day: 6 });
    let (mon, sat) = week_range(Date { year: 2024, month: 3, day: 3 });
    assert_eq!(mon, Date { year: 2024, month: 2, day: 26 });
    assert_eq!(sat, Date { year: 2024, month: 3, day: 2 });
}

#[test]
fn show_range_defaults_to_the_week() {
    let cmd = ShowCommand { start_time: None, end_time: None };
    let (s, e) = show_range(&cmd, Date { year: 2024, month: 1, day: 3 });
    assert_eq!(s, at(2024, 1, 1, 0, 0, 0));
    assert_eq!(e, at(2024, 1, 6, 23, 59, 59));
    let given = ShowCommand { start_time: Some(at(2023, 5, 1, 8, 0, 0)), end_time: None };
    assert_eq!(show_range(&given, Date { year: 2024, month: 1, day: 3 }).0, at(2023, 5, 1, 8, 0, 0));
}

#[test]
fn elapsed_seconds_between_timestamps() {
    assert_eq!(elapsed_seconds(at(2024, 1, 1, 10, 0, 0), at(2024, 1, 1, 11, 35, 30)), 5730);
    assert_eq!(elapsed_seconds(at(2024, 1, 2, 0, 0, 0), at(2024, 1, 1, 0, 0, 0)), -86400);
    assert_eq!(elapsed_seconds(at(2023, 12, 31, 23, 0, 0), at(2024, 1, 1, 1, 0, 0)), 7200);
}

#[test]
fn timestamps_read_and_written() {
    assert_eq!(parse_timestamp("2024-02-29 13:05:09"), Some(at(2024, 2, 29, 13, 5, 9)));
    assert_eq!(parse_timestamp("2023-02-29 13:05:09"), None);
    assert_eq!(parse_timestamp("2024-02-28T13:05:09"), None);
    assert_eq!(parse_timestamp("2024-02-28 24:00:00"), None);
    assert_eq!(parse_timestamp("2024-02-28"), None);
    assert_eq!(format_timestamp(at(2024, 2, 9, 3, 5, 9)), "2024-02-09 03:05:09");
    assert_eq!(format_date(Date { year: 7, month: 1, day: 2 }), "0007-01-02");
}

#[test]
fn booking_session_with_a_literal_time() {
    let cmd = Command::Book(BookCommand {
        project_alias: "api".to_string(),
        time: "1.5".to_string(),
        tickets: Some(vec!["T-1".to_string()]),
        context: None,
        date: None,
    });
    let now = at(2024, 1, 1, 10, 0, 0);
    let mut session = Session::new("5".to_string(), now);
    assert!(matches!(cmd.execute(&mut session, Event::Begin), Action::LoadLinks));
    let store = LinkStore::from_links(vec![link("api", "p1")]);
    match cmd.execute(&mut session, Event::LinksLoaded(store)) {
        Action::Submit(e) => {
            assert_eq!(e.hours, Quantity { units: 15, scale: 1 });
            assert_eq!(e.note, "[T-1] ");
            assert_eq!(e.project_id, "p1");
            assert_eq!(e.employee_id, "5");
        }
        _ => panic!("expected a submission"),
    }
    match cmd.execute(&mut session, Event::Submitted(Submission::Accepted)) {
        Action::Booked { hours, description, note } => {
            assert_eq!(hours, Quantity { units: 15, scale: 1 });
            assert_eq!(description, "Dev for p1");
            assert_eq!(note, "[T-1] ");
        }
        _ => panic!("expected a booking"),
    }
    assert!(matches!(session.stage, Stage::Finished));
}

#[test]
fn booking_session_in_fill_mode() {
    let cmd = Command::Book(BookCommand {
        project_alias: "api".to_string(),
        time: "fill".to_string(),
        tickets: None,
        context: None,
        date: None,
    });
    let now = at(2024, 1, 1, 10, 37, 0);
    let mut session = Session::new("5".to_string(), now);
    cmd.execute(&mut session, Event::Begin);
    let store = LinkStore::from_links(vec![link("api", "p1")]);
    match cmd.execute(&mut session, Event::LinksLoaded(store)) {
        Action::FetchLatest(d) => assert_eq!(d, now.date),
        _ => panic!("expected a fetch of the latest entry"),
    }
    match cmd.execute(&mut session, Event::LatestEntry(Some("2024-01-01 10:00:00".to_string()))) {
        Action::Submit(e) => assert_eq!(e.hours, Quantity { units: 75, scale: 2 }),
        _ => panic!("expected a submission"),
    }
    match cmd.execute(&mut session, Event::Submitted(Submission::Unreachable)) {
        Action::Fail(e) => assert_eq!(e, Error::SubmitFailed),
        _ => panic!("expected a failure"),
    }
}

#[test]
fn booking_session_errors() {
    let book = |alias: &str, time: &str| {
        Command::Book(BookCommand {
            project_alias: alias.to_string(),
            time: time.to_string(),
            tickets: None,
            context: None,
            date: None,
        })
    };
    let now = at(2024, 1, 1, 10, 0, 0);
    for (cmd, err) in [(book("nope", "1"), Error::UnknownAlias), (book("api", "x"), Error::InvalidTime)] {
        let mut session = Session::new("5".to_string(), now);
        cmd.execute(&mut session, Event::Begin);
        let store = LinkStore::from_links(vec![link("api", "p1")]);
        match cmd.execute(&mut session, Event::LinksLoaded(store)) {
            Action::Fail(e) => assert_eq!(e, err),
            _ => panic!("expected a failure"),
        }
    }
    let cmd = book("api", "fill");
    let mut session = Session::new("5".to_string(), now);
    cmd.execute(&mut session, Event::Begin);
    cmd.execute(&mut session, Event::LinksLoaded(LinkStore::from_links(vec![link("api", "p1")])));
    match cmd.execute(&mut session, Event::LatestEntry(None)) {
        Action::Fail(e) => assert_eq!(e, Error::NoRecentEntry),
        _ => panic!("expected a failure"),
    }
}

#[test]
fn link_add_session() {
    let cmd = Command::Links(LinkCommand::Add);
    let mut session = Session::new("5".to_string(), at(2024, 1, 1, 10, 0, 0));
    assert!(matches!(cmd.execute(&mut session, Event::Begin), Action::FetchProjects(_)));
    let projects: Vec<Project> = (0..100)
        .map(|i| Project { id: format!("p{}", i), name: format!("n{:03}", 99 - i), status_label: None, start_date: None, end_date: None })
        .collect();
    match cmd.execute(&mut session, Event::Projects(projects)) {
        Action::FetchProjects(params) => assert_eq!(params[1].1, "100"),
        _ => panic!("expected the next page"),
    }
    match cmd.execute(&mut session, Event::Projects(vec![])) {
        Action::ChooseProject(options) => {
            assert_eq!(options.len(), 100);
            assert_eq!(options[0].name, "n000");
        }
        _ => panic!("expected a choice"),
    }
    match cmd.execute(&mut session, Event::Chosen(0)) {
        Action::FetchServices(params) => assert_eq!(params[2], ("q[project_id]".to_string(), "p99".to_string())),
        _ => panic!("expected services"),
    }
    let svc = Service { id: "s1".to_string(), name: Some("Build".to_string()), status: None, start_date: None, end_date: None };
    assert!(matches!(cmd.execute(&mut session, Event::Services(vec![svc])), Action::ChooseService(_)));
    assert!(matches!(cmd.execute(&mut session, Event::Chosen(0)), Action::FetchHourTypes(_)));
    let ht = HourType { id: "h1".to_string(), label: "Dev".to_string() };
    assert!(matches!(cmd.execute(&mut session, Event::HourTypes(vec![ht])), Action::ChooseHourType(_)));
    assert!(matches!(cmd.execute(&mut session, Event::Chosen(0)), Action::AskAlias));
    assert!(matches!(cmd.execute(&mut session, Event::AliasGiven("b".to_string())), Action::LoadLinks));
    match cmd.execute(&mut session, Event::LinksLoaded(LinkStore::from_links(vec![link("a", "p")]))) {
        Action::SaveLinks(links) => {
            assert_eq!(links.len(), 2);
            assert_eq!(links[1].description, "Dev for n000 - Build");
        }
        _ => panic!("expected a save"),
    }
    match cmd.execute(&mut session, Event::Saved) {
        Action::LinkAdded { alias, .. } => assert_eq!(alias, "b"),
        _ => panic!("expected the report"),
    }
}

#[test]
fn invalid_selection_ends_link_creation() {
    let cmd = Command::Links(LinkCommand::Add);
    let mut session = Session::new("5".to_string(), at(2024, 1, 1, 10, 0, 0));
    cmd.execute(&mut session, Event::Begin);
    cmd.execute(&mut session, Event::Projects(vec![]));
    match cmd.execute(&mut session, Event::Chosen(0)) {
        Action::Fail(e) => assert_eq!(e, Error::InvalidSelection),
        _ => panic!("expected a failure"),
    }
}

#[test]
fn show_session_groups_the_hours() {
    let cmd = Command::Show(ShowCommand { start_time: None, end_time: None });
    let mut session = Session::new("5".to_string(), at(2024, 1, 3, 10, 0, 0));
    match cmd.execute(&mut session, Event::Begin) {
        Action::FetchHours(params) => {
            assert_eq!(params[3].1, "2024-01-01 00:00:00");
            assert_eq!(params[4].1, "2024-01-06 23:59:59");
        }
        _ => panic!("expected a fetch"),
    }
    let recs = vec![record(Some("2024-01-01 09:00:00"), 100), record(Some("2024-01-01 10:00:00"), 200)];
    match cmd.execute(&mut session, Event::Hours(recs)) {
        Action::ShowHours(groups) => {
            assert_eq!(groups.len(), 1);
            assert_eq!(groups[0].total, 300);
        }
        _ => panic!("expected hours"),
    }
}

#[test]
fn remove_and_show_links_sessions() {
    let cmd = Command::Links(LinkCommand::Remove { alias: "a".to_string() });
    let mut session = Session::new("5".to_string(), at(2024, 1, 3, 10, 0, 0));
    cmd.execute(&mut session, Event::Begin);
    match cmd.execute(&mut session, Event::LinksLoaded(LinkStore::from_links(vec![link("a", "p"), link("b", "q")]))) {
        Action::SaveLinks(links) => {
            assert_eq!(links.len(), 1);
            assert_eq!(links[0].alias, "b");
        }
        _ => panic!("expected a save"),
    }
    assert!(matches!(cmd.execute(&mut session, Event::Saved), Action::LinkRemoved(_)));
    let show = Command::Links(LinkCommand::Show);
    let mut session = Session::new("5".to_string(), at(2024, 1, 3, 10, 0, 0));
    show.execute(&mut session, Event::Begin);
    match show.execute(&mut session, Event::LinksLoaded(LinkStore::from_links(vec![link("a", "p")]))) {
        Action::ShowLinks(links) => assert_eq!(links.len(), 1),
        _ => panic!("expected the links"),
    }
    assert!(matches!(show.execute(&mut session, Event::Saved), Action::Ignore));
}

#[test]
fn table_rows_fill_in_missing_fields() {
    let p = Project {
        id: "p".to_string(),
        name: "Site".to_string(),
        status_label: Some("tab_pactive".to_string()),
        start_date: Some("2024-01-01".to_string()),
        end_date: None,
    };
    let row = p.row(12);
    assert_eq!(row.cells, vec!["12", "Site", "2024-01-01", "Unknown", "tab_pactive"]);
    assert!(row.active);
    assert_eq!(Project::headers(), vec!["Index", "Project Name", "Start Date", "End Date", "Status"]);
    let s = Service { id: "s".to_string(), name: None, status: Some("closed".to_string()), start_date: None, end_date: None };
    let row = s.row(0);
    assert_eq!(row.cells, vec!["0", "Unknown", "Unknown", "Unknown", "closed"]);
    assert!(!row.active);
    let l = link("api", "p1");
    assert_eq!(l.row(3).cells, vec!["3", "api", "Dev for p1"]);
    assert_eq!(Link::headers(), vec!["Index", "Alias", "Description"]);
    let h = HourType { id: "h".to_string(), label: "Dev".to_string() };
    assert_eq!(h.row(1).cells, vec!["1", "Dev"]);
}

#[test]
fn the_clock_gives_a_valid_time() {
    let now = simpl::date::current_time().unwrap();
    assert!(now.date.month >= 1 && now.date.month <= 12);
    assert!(now.hour < 24 && now.minute < 60 && now.second < 60);
    assert!(now.date.year >= 2000);
}

#[test]
fn config_command_hands_over_the_setup() {
    let cmd = Command::Config(simpl::command::ConfigCommand {});
    let mut session = Session::new(String::new(), at(2024, 1, 1, 0, 0, 0));
    assert!(matches!(cmd.execute(&mut session, Event::Begin), Action::Configure));
    assert!(matches!(cmd.execute(&mut session, Event::Begin), Action::Ignore));
}

#[test]
fn clock_fields_become_a_timestamp() {
    assert_eq!(simpl::date::date_time_of(2024, 2, 29, 13, 5, 9), Some(at(2024, 2, 29, 13, 5, 9)));
    assert_eq!(simpl::date::date_time_of(9999, 12, 31, 23, 59, 59), Some(at(9999, 12, 31, 23, 59, 59)));
    assert_eq!(simpl::date::date_time_of(0, 1, 1, 0, 0, 0), None);
    assert_eq!(simpl::date::date_time_of(10000, 1, 1, 0, 0, 0), None);
    assert_eq!(simpl::date::date_time_of(-5, 1, 1, 0, 0, 0), None);
}
