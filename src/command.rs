//! The commands of the tool as a machine of decisions: given the stage a
//! command has reached and what the outside world reported (an event), it
//! says what to do next (an action). Reading files, talking to the remote
//! service and prompting are left to the caller.
use crate::book::{
    compose, fill_quarters, fill_since, is_entry, parse_time_spec, time_spec_of, HourEntry, Quantity,
    TimeSpec,
};
use crate::copy::{copy_vec, Duplicate};
use crate::catalog::{listing_order, select, HourType, Project, Service};
use crate::date::{in_last_week, parse_timestamp, timestamp_of, week_range, Date, DateTime};
use crate::error::Error;
use crate::hours::{day_groups, group_views, grouped, totals_hold, DayGroup, HourRecord};
use crate::catalog::description_of;
use crate::link::{link_map, unique_aliases, views, Link, LinkStore, LinkView};
use crate::order::{sorted_by_key, with_key};
use crate::remote::{
    advance, hours_filter, page_params_view, params_view, service_filter, Pager, Param, PAGE_SIZE,
};
use crate::date::timestamp_text;
use vstd::prelude::*;

verus! {

/// Book hours under an alias.
pub struct BookCommand {
    pub project_alias: String,
    /// A decimal number of hours, or "fill".
    pub time: String,
    pub tickets: Option<Vec<String>>,
    pub context: Option<String>,
    /// The day to book on; today where none is given.
    pub date: Option<Date>,
}

/// Manage the links.
pub enum LinkCommand {
    Add,
    Remove { alias: String },
    Show,
}

/// Set up the credentials.
pub struct ConfigCommand {}

/// Show the hours booked from `start_time` to `end_time` (the current week,
/// Monday to Saturday, where they are not given).
pub struct ShowCommand {
    pub start_time: Option<DateTime>,
    pub end_time: Option<DateTime>,
}

pub enum Command {
    Links(LinkCommand),
    Book(BookCommand),
    Config(ConfigCommand),
    Show(ShowCommand),
}

/// How far a command has come.
#[allow(inconsistent_fields)]
pub enum Stage {
    Start,
    AwaitLinks,
    AwaitLatest { link: Link },
    AwaitSubmit { link: Link, entry: HourEntry },
    ListingHours { pager: Pager<HourRecord>, filter: Vec<Param> },
    ListingProjects { pager: Pager<Project> },
    ChoosingProject { options: Vec<Project> },
    ListingServices { project: Project, pager: Pager<Service>, filter: Vec<Param> },
    ChoosingService { project: Project, options: Vec<Service> },
    ListingHourTypes { project: Project, service: Service, pager: Pager<HourType> },
    ChoosingHourType { project: Project, service: Service, options: Vec<HourType> },
    AwaitAlias { project: Project, service: Service, hour_type: HourType },
    AwaitStore { link: Link },
    AwaitSaved { done: Action },
    Finished,
}

/// How the remote service answered a booking.
pub enum Submission {
    Accepted,
    /// It refused the booking with this error payload.
    Rejected(String),
    /// It could not be reached.
    Unreachable,
}

/// What the outside world reports.
pub enum Event {
    Begin,
    LinksLoaded(LinkStore),
    /// The start of the latest entry of today, if there is one.
    LatestEntry(Option<String>),
    Projects(Vec<Project>),
    Services(Vec<Service>),
    HourTypes(Vec<HourType>),
    Hours(Vec<HourRecord>),
    Chosen(usize),
    AliasGiven(String),
    Saved,
    Submitted(Submission),
}

/// What to do next.
pub enum Action {
    LoadLinks,
    /// Fetch the latest entry of the employee on this day.
    FetchLatest(Date),
    FetchProjects(Vec<Param>),
    FetchServices(Vec<Param>),
    FetchHourTypes(Vec<Param>),
    FetchHours(Vec<Param>),
    ChooseProject(Vec<Project>),
    ChooseService(Vec<Service>),
    ChooseHourType(Vec<HourType>),
    AskAlias,
    SaveLinks(Vec<Link>),
    Submit(HourEntry),
    ShowLinks(Vec<Link>),
    ShowHours(Vec<DayGroup>),
    Configure,
    Booked { hours: Quantity, description: String, note: String },
    Rejected(String),
    LinkAdded { alias: String, description: String },
    LinkRemoved(String),
    Fail(Error),
    /// The event does not fit the stage; nothing to do.
    Ignore,
}

/// A command under way, for the employee `employee_id` at the time `now`.
pub struct Session {
    pub stage: Stage,
    pub employee_id: String,
    pub now: DateTime,
}

impl Session {
    pub open spec fn wf(&self) -> bool {
        &&& self.now.wf()
        &&& match self.stage {
            Stage::ListingHours { pager, .. } => pager.wf() && !pager.done,
            Stage::ListingProjects { pager } => pager.wf() && !pager.done,
            Stage::ListingServices { pager, .. } => pager.wf() && !pager.done,
            Stage::ListingHourTypes { pager, .. } => pager.wf() && !pager.done,
            _ => true,
        }
    }

    /// A command that has not begun.
    pub fn new(employee_id: String, now: DateTime) -> (r: Session)
        requires
            now.wf(),
        ensures
            r.wf(),
            r.stage is Start,
            r.employee_id == employee_id,
            r.now == now,
    {
        Session { stage: Stage::Start, employee_id, now }
    }
}

/// The range that `show` lists: from `start` (Monday 00:00:00 of the week of
/// `today` where none is given) to `end` (Saturday 23:59:59 of that week, or
/// the last second of 9999 where that Saturday has a five-digit year).
pub fn show_range(cmd: &ShowCommand, today: Date) -> (r: (DateTime, DateTime))
    requires
        today.wf(),
    ensures
        range_spec(*cmd, today, r.0, r.1),
{
    let (monday, saturday) = if today.year == 9999 && today.month == 12 && today.day >= 27 {
        (Date { year: 9999, month: 12, day: 27 }, Date { year: 9999, month: 12, day: 31 })
    } else {
        week_range(today)
    };
    proof {
        if in_last_week(today) {
            assert(Date { year: 9999, month: 12, day: 27 }.day_number() == today.day_number() - today.weekday())
                by {
                assert(Date { year: 9999, month: 12, day: 27 }.day_number() % 7 == 0);
            }
        }
    }
    let start = match cmd.start_time {
        Some(s) => s,
        None => DateTime::midnight(monday),
    };
    let end = match cmd.end_time {
        Some(e) => e,
        None => DateTime::end_of_day(saturday),
    };
    (start, end)
}

/// What a booking does once the links are loaded: the alias is resolved
/// first, then the time is read.
pub open spec fn book_links_spec(
    cmd: BookCommand,
    store: LinkStore,
    employee_id: Seq<char>,
    now: DateTime,
    stage: Stage,
    action: Action,
) -> bool {
    let a = cmd.project_alias@;
    if !store@.contains_key(a) {
        stage is Finished && action == Action::Fail(Error::UnknownAlias)
    } else {
        match time_spec_of(cmd.time@) {
            None => stage is Finished && action == Action::Fail(Error::InvalidTime),
            Some(TimeSpec::Fill) => action == Action::FetchLatest(now.date) && stage is AwaitLatest
                && stage->AwaitLatest_link@ == store@[a],
            Some(TimeSpec::Hours(q)) => action is Submit && stage is AwaitSubmit
                && stage->AwaitSubmit_link@ == store@[a] && stage->AwaitSubmit_entry
                == action->Submit_0 && is_entry(
                action->Submit_0,
                store@[a],
                employee_id,
                q,
                cmd.tickets,
                cmd.context,
                cmd.date,
                now,
            ),
        }
    }
}

/// What a booking in fill mode does once the start of the latest entry of
/// today is known.
pub open spec fn book_latest_spec(
    cmd: BookCommand,
    link: Link,
    latest: Option<String>,
    employee_id: Seq<char>,
    now: DateTime,
    stage: Stage,
    action: Action,
) -> bool {
    let start = match latest {
        Some(s) => timestamp_of(s@),
        None => None,
    };
    match start {
        None => stage is Finished && action == Action::Fail(Error::NoRecentEntry),
        Some(t) => if now.seconds() < t.seconds() {
            stage is Finished && action == Action::Fail(Error::NoRecentEntry)
        } else {
            action is Submit && stage is AwaitSubmit && stage->AwaitSubmit_link == link
                && stage->AwaitSubmit_entry == action->Submit_0 && is_entry(
                action->Submit_0,
                link@,
                employee_id,
                Quantity {
                    units: (25 * fill_quarters(((now.seconds() - t.seconds()) / 60) as nat)) as u64,
                    scale: 2,
                },
                cmd.tickets,
                cmd.context,
                cmd.date,
                now,
            )
        },
    }
}

/// What the remote service's answer to a booking leads to.
pub open spec fn answer_spec(link: Link, entry: HourEntry, answer: Submission, action: Action) -> bool {
    match answer {
        Submission::Accepted => action == Action::Booked {
            hours: entry.hours,
            description: link.description,
            note: entry.note,
        },
        Submission::Rejected(p) => action == Action::Rejected(p),
        Submission::Unreachable => action == Action::Fail(Error::SubmitFailed),
    }
}

fn book_with_links(cmd: &BookCommand, store: &LinkStore, employee_id: &String, now: DateTime) -> (r: (
    Stage,
    Action,
))
    requires
        store.wf(),
        now.wf(),
    ensures
        book_links_spec(*cmd, *store, employee_id@, now, r.0, r.1),
{
    let link = match Link::from_alias(store, &cmd.project_alias) {
        Ok(l) => l,
        Err(e) => return (Stage::Finished, Action::Fail(e)),
    };
    match parse_time_spec(cmd.time.as_str()) {
        Err(e) => (Stage::Finished, Action::Fail(e)),
        Ok(TimeSpec::Fill) => (Stage::AwaitLatest { link }, Action::FetchLatest(now.date)),
        Ok(TimeSpec::Hours(q)) => {
            let entry = compose(&link, employee_id, q, &cmd.tickets, &cmd.context, cmd.date, now);
            let e2 = entry.duplicate();
            (Stage::AwaitSubmit { link, entry }, Action::Submit(e2))
        },
    }
}

fn book_with_latest(
    cmd: &BookCommand,
    link: Link,
    latest: &Option<String>,
    employee_id: &String,
    now: DateTime,
) -> (r: (Stage, Action))
    requires
        now.wf(),
    ensures
        book_latest_spec(*cmd, link, *latest, employee_id@, now, r.0, r.1),
{
    let start = match latest {
        Some(s) => parse_timestamp(s.as_str()),
        None => None,
    };
    match fill_since(start, now) {
        Err(e) => (Stage::Finished, Action::Fail(e)),
        Ok(q) => {
            let entry = compose(&link, employee_id, q, &cmd.tickets, &cmd.context, cmd.date, now);
            let e2 = entry.duplicate();
            (Stage::AwaitSubmit { link, entry }, Action::Submit(e2))
        },
    }
}

fn book_answered(link: &Link, entry: &HourEntry, answer: Submission) -> (r: Action)
    ensures
        answer_spec(*link, *entry, answer, r),
{
    match answer {
        Submission::Accepted => Action::Booked {
            hours: entry.hours,
            description: link.description.clone(),
            note: entry.note.clone(),
        },
        Submission::Rejected(p) => Action::Rejected(p),
        Submission::Unreachable => Action::Fail(Error::SubmitFailed),
    }
}

/// Whether `start` to `end` is the range that `cmd` shows when today is
/// `today`.
pub open spec fn range_spec(cmd: ShowCommand, today: Date, start: DateTime, end: DateTime) -> bool {
    &&& cmd.start_time matches Some(s) ==> start == s
    &&& cmd.end_time matches Some(e) ==> end == e
    &&& cmd.start_time is None ==> start.date.day_number() == today.day_number() - today.weekday()
        && start.hour == 0 && start.minute == 0 && start.second == 0 && start.date.wf()
    &&& cmd.end_time is None && !in_last_week(today) ==> end.date.day_number() == today.day_number()
        - today.weekday() + 5 && end.hour == 23 && end.minute == 59 && end.second == 59
        && end.date.wf()
    &&& cmd.end_time is None && in_last_week(today) ==> end == (DateTime {
        date: Date { year: 9999, month: 12, day: 31 },
        hour: 23,
        minute: 59,
        second: 59,
    })
}

/// A listing whose pages keep coming, or that ends with the page just come.
pub open spec fn listing_spec<T>(
    pager: Pager<T>,
    page: Seq<T>,
    extra: Seq<Param>,
    next: Pager<T>,
    request: Vec<Param>,
) -> bool {
    &&& next.wf()
    &&& !next.done
    &&& next.items@ == pager.items@ + page
    &&& next.offset == pager.offset + page.len()
    &&& params_view(request@) == page_params_view(next.offset as nat, extra)
}

/// The options of a listing that has ended, in their listing order.
pub open spec fn options_spec<T: crate::order::Keyed>(all: Seq<T>, options: Seq<T>) -> bool {
    &&& sorted_by_key(options)
    &&& options.to_multiset() == all.to_multiset()
    &&& forall|k: (Seq<char>, Seq<char>)| #[trigger] with_key(options, k) == with_key(all, k)
}

/// A listing that has not been asked for yet, and the request for its first
/// page.
pub open spec fn first_page_spec<T>(pager: Pager<T>, extra: Seq<Param>, request: Vec<Param>) -> bool {
    &&& pager.wf()
    &&& !pager.done
    &&& pager.items@.len() == 0
    &&& pager.offset == 0
    &&& params_view(request@) == page_params_view(0, extra)
}

/// The employee and the time of a session stay as they were.
pub open spec fn keeps(before: Session, after: Session) -> bool {
    after.employee_id == before.employee_id && after.now == before.now
}

/// An event that does not fit the stage is ignored.
pub open spec fn ignored(before: Session, after: Session, action: Action) -> bool {
    action is Ignore && after.stage == before.stage
}

/// What booking does at the stage of `before` when `event` comes: the next
/// stage, in `after`, and the action.
pub open spec fn book_step_spec(
    cmd: BookCommand,
    before: Session,
    event: Event,
    after: Session,
    action: Action,
) -> bool {
    &&& keeps(before, after)
    &&& match (before.stage, event) {
        (Stage::Start, Event::Begin) => action is LoadLinks && after.stage is AwaitLinks,
        (Stage::AwaitLinks, Event::LinksLoaded(store)) => book_links_spec(
            cmd,
            store,
            before.employee_id@,
            before.now,
            after.stage,
            action,
        ),
        (Stage::AwaitLatest { link }, Event::LatestEntry(latest)) => book_latest_spec(
            cmd,
            link,
            latest,
            before.employee_id@,
            before.now,
            after.stage,
            action,
        ),
        (Stage::AwaitSubmit { link, entry }, Event::Submitted(answer)) => answer_spec(
            link,
            entry,
            answer,
            action,
        ) && after.stage is Finished,
        _ => ignored(before, after, action),
    }
}

/// What showing the hours does at the stage of `before` when `event` comes.
pub open spec fn show_step_spec(
    cmd: ShowCommand,
    before: Session,
    event: Event,
    after: Session,
    action: Action,
) -> bool {
    &&& keeps(before, after)
    &&& match (before.stage, event) {
        (Stage::Start, Event::Begin) => action is FetchHours && after.stage is ListingHours
            && first_page_spec(
            after.stage->ListingHours_pager,
            after.stage->ListingHours_filter@,
            action->FetchHours_0,
        ) && exists|start: DateTime, end: DateTime|
            range_spec(cmd, before.now.date, start, end) && params_view(
                after.stage->ListingHours_filter@,
            ) == seq![
                ("q[employee.id]"@, before.employee_id@),
                ("q[start_date][ge]"@, timestamp_text(start)),
                ("q[start_date][le]"@, timestamp_text(end)),
            ],
        (Stage::ListingHours { pager, filter }, Event::Hours(page)) => if page.len() >= PAGE_SIZE {
            action is FetchHours && after.stage is ListingHours && after.stage->ListingHours_filter
                == filter && listing_spec(
                pager,
                page@,
                filter@,
                after.stage->ListingHours_pager,
                action->FetchHours_0,
            )
        } else if pager.items@.len() + page.len() > 0x8000_0000 {
            action == Action::Fail(Error::TooManyEntries) && after.stage is Finished
        } else {
            action is ShowHours && after.stage is Finished && totals_hold(action->ShowHours_0@) && exists|
                s: Seq<HourRecord>,
            |
                sorted_by_key(s) && s.to_multiset() == (pager.items@ + page@).to_multiset() && (forall|
                    k: (Seq<char>, Seq<char>),
                | #[trigger] with_key(s, k) == with_key(pager.items@ + page@, k)) && group_views(
                    action->ShowHours_0@,
                ) == grouped(s)
        },
        _ => ignored(before, after, action),
    }
}

/// What the configuration command does: it hands the setup to the caller.
pub open spec fn config_step_spec(before: Session, event: Event, after: Session, action: Action) -> bool {
    &&& keeps(before, after)
    &&& match (before.stage, event) {
        (Stage::Start, Event::Begin) => action is Configure && after.stage is Finished,
        _ => ignored(before, after, action),
    }
}

/// What managing the links does at the stage of `before` when `event`
/// comes. Adding a link lists the projects, then the services of the chosen
/// project, then the hour types, each in its listing order, asks for an
/// alias and stores the link.
pub open spec fn links_step_spec(
    cmd: LinkCommand,
    before: Session,
    event: Event,
    after: Session,
    action: Action,
) -> bool {
    &&& keeps(before, after)
    &&& match (before.stage, event) {
        (Stage::Start, Event::Begin) => match cmd {
            LinkCommand::Add => action is FetchProjects && after.stage is ListingProjects
                && first_page_spec(after.stage->ListingProjects_pager, seq![], action->FetchProjects_0),
            _ => action is LoadLinks && after.stage is AwaitLinks,
        },
        (Stage::AwaitLinks, Event::LinksLoaded(store)) => match cmd {
            LinkCommand::Remove { alias } => action is SaveLinks && unique_aliases(
                views(action->SaveLinks_0@),
            ) && link_map(views(action->SaveLinks_0@)) == store@.remove(alias@) && after.stage
                == Stage::AwaitSaved { done: Action::LinkRemoved(alias) },
            LinkCommand::Show => action == Action::ShowLinks(store.links) && after.stage is Finished,
            LinkCommand::Add => ignored(before, after, action),
        },
        (Stage::ListingProjects { pager }, Event::Projects(page)) => if page.len() >= PAGE_SIZE {
            action is FetchProjects && after.stage is ListingProjects && listing_spec(
                pager,
                page@,
                seq![],
                after.stage->ListingProjects_pager,
                action->FetchProjects_0,
            )
        } else {
            action is ChooseProject && after.stage is ChoosingProject
                && after.stage->ChoosingProject_options@ == action->ChooseProject_0@ && options_spec(
                pager.items@ + page@,
                action->ChooseProject_0@,
            )
        },
        (Stage::ChoosingProject { options }, Event::Chosen(i)) => if i < options.len() {
            action is FetchServices && after.stage is ListingServices
                && after.stage->ListingServices_project == options@[i as int] && params_view(
                after.stage->ListingServices_filter@,
            ) == seq![("q[project_id]"@, options@[i as int].id@)] && first_page_spec(
                after.stage->ListingServices_pager,
                after.stage->ListingServices_filter@,
                action->FetchServices_0,
            )
        } else {
            action == Action::Fail(Error::InvalidSelection) && after.stage is Finished
        },
        (Stage::ListingServices { project, pager, filter }, Event::Services(page)) => if page.len()
            >= PAGE_SIZE {
            action is FetchServices && after.stage is ListingServices
                && after.stage->ListingServices_project == project && after.stage->ListingServices_filter
                == filter && listing_spec(
                pager,
                page@,
                filter@,
                after.stage->ListingServices_pager,
                action->FetchServices_0,
            )
        } else {
            action is ChooseService && after.stage is ChoosingService
                && after.stage->ChoosingService_project == project
                && after.stage->ChoosingService_options@ == action->ChooseService_0@ && options_spec(
                pager.items@ + page@,
                action->ChooseService_0@,
            )
        },
        (Stage::ChoosingService { project, options }, Event::Chosen(i)) => if i < options.len() {
            action is FetchHourTypes && after.stage is ListingHourTypes
                && after.stage->ListingHourTypes_project == project
                && after.stage->ListingHourTypes_service == options@[i as int] && first_page_spec(
                after.stage->ListingHourTypes_pager,
                seq![],
                action->FetchHourTypes_0,
            )
        } else {
            action == Action::Fail(Error::InvalidSelection) && after.stage is Finished
        },
        (Stage::ListingHourTypes { project, service, pager }, Event::HourTypes(page)) => if page.len()
            >= PAGE_SIZE {
            action is FetchHourTypes && after.stage is ListingHourTypes
                && after.stage->ListingHourTypes_project == project
                && after.stage->ListingHourTypes_service == service && listing_spec(
                pager,
                page@,
                seq![],
                after.stage->ListingHourTypes_pager,
                action->FetchHourTypes_0,
            )
        } else {
            action is ChooseHourType && after.stage is ChoosingHourType
                && after.stage->ChoosingHourType_project == project
                && after.stage->ChoosingHourType_service == service
                && after.stage->ChoosingHourType_options@ == action->ChooseHourType_0@ && options_spec(
                pager.items@ + page@,
                action->ChooseHourType_0@,
            )
        },
        (Stage::ChoosingHourType { project, service, options }, Event::Chosen(i)) => if i
            < options.len() {
            action is AskAlias && after.stage == Stage::AwaitAlias {
                project,
                service,
                hour_type: options@[i as int],
            }
        } else {
            action == Action::Fail(Error::InvalidSelection) && after.stage is Finished
        },
        (Stage::AwaitAlias { project, service, hour_type }, Event::AliasGiven(alias)) => action is LoadLinks
            && after.stage is AwaitStore && after.stage->AwaitStore_link@ == (LinkView {
            alias: alias@,
            project_id: project.id@,
            service_id: service.id@,
            hour_type_id: hour_type.id@,
            description: description_of(project, service, hour_type),
        }),
        (Stage::AwaitStore { link }, Event::LinksLoaded(store)) => action is SaveLinks && unique_aliases(
            views(action->SaveLinks_0@),
        ) && link_map(views(action->SaveLinks_0@)) == store@.insert(link.alias@, link@) && after.stage
            == Stage::AwaitSaved { done: Action::LinkAdded { alias: link.alias, description: link.description } },
        (Stage::AwaitSaved { done }, Event::Saved) => action == done && after.stage is Finished,
        _ => ignored(before, after, action),
    }
}

/// What `cmd` does at the stage of `before` when `event` comes.
pub open spec fn step_spec(cmd: Command, before: Session, event: Event, after: Session, action: Action) -> bool {
    match cmd {
        Command::Links(c) => links_step_spec(c, before, event, after, action),
        Command::Book(c) => book_step_spec(c, before, event, after, action),
        Command::Config(_) => config_step_spec(before, event, after, action),
        Command::Show(c) => show_step_spec(c, before, event, after, action),
    }
}

impl BookCommand {
    /// Takes a booking one step: resolve the alias, read the time (asking
    /// for the latest entry of today in fill mode), submit the entry and
    /// report the answer.
    pub fn execute(&self, session: &mut Session, event: Event) -> (r: Action)
        requires
            old(session).wf(),
            event matches Event::LinksLoaded(store) ==> store.wf(),
        ensures
            final(session).wf(),
            book_step_spec(*self, *old(session), event, *final(session), r),
    {
        let mut stage = Stage::Finished;
        core::mem::swap(&mut session.stage, &mut stage);
        let now = session.now;
        match (stage, event) {
            (Stage::Start, Event::Begin) => {
                session.stage = Stage::AwaitLinks;
                Action::LoadLinks
            },
            (Stage::AwaitLinks, Event::LinksLoaded(store)) => {
                let (st, a) = book_with_links(self, &store, &session.employee_id, now);
                session.stage = st;
                a
            },
            (Stage::AwaitLatest { link }, Event::LatestEntry(latest)) => {
                let (st, a) = book_with_latest(self, link, &latest, &session.employee_id, now);
                session.stage = st;
                a
            },
            (Stage::AwaitSubmit { link, entry }, Event::Submitted(answer)) => book_answered(
                &link,
                &entry,
                answer,
            ),
            (st, _) => {
                session.stage = st;
                Action::Ignore
            },
        }
    }
}

impl ShowCommand {
    /// Takes the listing of booked hours one step: ask for the range page by
    /// page, then show the entries grouped by day.
    pub fn execute(&self, session: &mut Session, event: Event) -> (r: Action)
        requires
            old(session).wf(),
        ensures
            final(session).wf(),
            show_step_spec(*self, *old(session), event, *final(session), r),
    {
        let mut stage = Stage::Finished;
        core::mem::swap(&mut session.stage, &mut stage);
        let now = session.now;
        match (stage, event) {
            (Stage::Start, Event::Begin) => {
                let (start, end) = show_range(self, now.date);
                let filter = hours_filter(&session.employee_id, start, end);
                let pager: Pager<HourRecord> = Pager::new();
                let req = pager.page_params(&filter);
                assert(range_spec(*self, now.date, start, end) && params_view(filter@) == seq![
                    ("q[employee.id]"@, session.employee_id@),
                    ("q[start_date][ge]"@, timestamp_text(start)),
                    ("q[start_date][le]"@, timestamp_text(end)),
                ]);
                session.stage = Stage::ListingHours { pager, filter };
                Action::FetchHours(req)
            },
            (Stage::ListingHours { pager, filter }, Event::Hours(page)) => {
                let (pager, next) = advance(pager, page, &filter);
                match next {
                    Some(req) => {
                        session.stage = Stage::ListingHours { pager, filter };
                        Action::FetchHours(req)
                    },
                    None => {
                        let items = pager.into_items();
                        if items.len() > 0x8000_0000 {
                            Action::Fail(Error::TooManyEntries)
                        } else {
                            Action::ShowHours(day_groups(items))
                        }
                    },
                }
            },
            (st, _) => {
                session.stage = st;
                Action::Ignore
            },
        }
    }
}

impl ConfigCommand {
    /// The configuration is set up by the caller.
    pub fn execute(&self, session: &mut Session, event: Event) -> (r: Action)
        requires
            old(session).wf(),
        ensures
            final(session).wf(),
            config_step_spec(*old(session), event, *final(session), r),
    {
        let mut stage = Stage::Finished;
        core::mem::swap(&mut session.stage, &mut stage);
        match (stage, event) {
            (Stage::Start, Event::Begin) => Action::Configure,
            (st, _) => {
                session.stage = st;
                Action::Ignore
            },
        }
    }
}

impl LinkCommand {
    /// Takes link management one step: add a link chosen from the remote
    /// listings, remove one, or show them all.
    pub fn execute(&self, session: &mut Session, event: Event) -> (r: Action)
        requires
            old(session).wf(),
            event matches Event::LinksLoaded(store) ==> store.wf(),
        ensures
            final(session).wf(),
            links_step_spec(*self, *old(session), event, *final(session), r),
    {
        let mut stage = Stage::Finished;
        core::mem::swap(&mut session.stage, &mut stage);
        match (stage, event) {
            (Stage::Start, Event::Begin) => match self {
                LinkCommand::Add => {
                    let pager: Pager<Project> = Pager::new();
                    let req = pager.page_params(&Vec::new());
                    session.stage = Stage::ListingProjects { pager };
                    Action::FetchProjects(req)
                },
                _ => {
                    session.stage = Stage::AwaitLinks;
                    Action::LoadLinks
                },
            },
            (Stage::AwaitLinks, Event::LinksLoaded(store)) => match self {
                LinkCommand::Remove { alias } => {
                    let mut store = store;
                    store.remove(alias);
                    session.stage = Stage::AwaitSaved { done: Action::LinkRemoved(alias.clone()) };
                    Action::SaveLinks(store.links)
                },
                LinkCommand::Show => Action::ShowLinks(store.links),
                LinkCommand::Add => {
                    session.stage = Stage::AwaitLinks;
                    Action::Ignore
                },
            },
            (Stage::ListingProjects { pager }, Event::Projects(page)) => {
                let (pager, next) = advance(pager, page, &Vec::new());
                match next {
                    Some(req) => {
                        session.stage = Stage::ListingProjects { pager };
                        Action::FetchProjects(req)
                    },
                    None => {
                        let options = listing_order(pager.into_items());
                        let shown = copy_vec(&options);
                        session.stage = Stage::ChoosingProject { options };
                        Action::ChooseProject(shown)
                    },
                }
            },
            (Stage::ChoosingProject { options }, Event::Chosen(i)) => match select(options, i) {
                Ok(project) => {
                    let filter = service_filter(&project.id);
                    let pager: Pager<Service> = Pager::new();
                    let req = pager.page_params(&filter);
                    session.stage = Stage::ListingServices { project, pager, filter };
                    Action::FetchServices(req)
                },
                Err(e) => Action::Fail(e),
            },
            (Stage::ListingServices { project, pager, filter }, Event::Services(page)) => {
                let (pager, next) = advance(pager, page, &filter);
                match next {
                    Some(req) => {
                        session.stage = Stage::ListingServices { project, pager, filter };
                        Action::FetchServices(req)
                    },
                    None => {
                        let options = listing_order(pager.into_items());
                        let shown = copy_vec(&options);
                        session.stage = Stage::ChoosingService { project, options };
                        Action::ChooseService(shown)
                    },
                }
            },
            (Stage::ChoosingService { project, options }, Event::Chosen(i)) => match select(options, i) {
                Ok(service) => {
                    let pager: Pager<HourType> = Pager::new();
                    let req = pager.page_params(&Vec::new());
                    session.stage = Stage::ListingHourTypes { project, service, pager };
                    Action::FetchHourTypes(req)
                },
                Err(e) => Action::Fail(e),
            },
            (Stage::ListingHourTypes { project, service, pager }, Event::HourTypes(page)) => {
                let (pager, next) = advance(pager, page, &Vec::new());
                match next {
                    Some(req) => {
                        session.stage = Stage::ListingHourTypes { project, service, pager };
                        Action::FetchHourTypes(req)
                    },
                    None => {
                        let options = listing_order(pager.into_items());
                        let shown = copy_vec(&options);
                        session.stage = Stage::ChoosingHourType { project, service, options };
                        Action::ChooseHourType(shown)
                    },
                }
            },
            (Stage::ChoosingHourType { project, service, options }, Event::Chosen(i)) => match select(
                options,
                i,
            ) {
                Ok(hour_type) => {
                    session.stage = Stage::AwaitAlias { project, service, hour_type };
                    Action::AskAlias
                },
                Err(e) => Action::Fail(e),
            },
            (Stage::AwaitAlias { project, service, hour_type }, Event::AliasGiven(alias)) => {
                let link = Link::from_choice(alias, &project, &service, &hour_type);
                session.stage = Stage::AwaitStore { link };
                Action::LoadLinks
            },
            (Stage::AwaitStore { link }, Event::LinksLoaded(store)) => {
                let mut store = store;
                let done = Action::LinkAdded { alias: link.alias.clone(), description: link.description.clone() };
                store.upsert(link);
                session.stage = Stage::AwaitSaved { done };
                Action::SaveLinks(store.links)
            },
            (Stage::AwaitSaved { done }, Event::Saved) => done,
            (st, _) => {
                session.stage = st;
                Action::Ignore
            },
        }
    }
}

impl Command {
    /// Takes the command one step: from the stage that `session` has reached
    /// and the `event` that came, to the next stage and the action to take.
    pub fn execute(&self, session: &mut Session, event: Event) -> (r: Action)
        requires
            old(session).wf(),
            event matches Event::LinksLoaded(store) ==> store.wf(),
        ensures
            final(session).wf(),
            step_spec(*self, *old(session), event, *final(session), r),
    {
        match self {
            Command::Links(c) => c.execute(session, event),
            Command::Book(c) => c.execute(session, event),
            Command::Config(c) => c.execute(session, event),
            Command::Show(c) => c.execute(session, event),
        }
    }
}

} // verus!
