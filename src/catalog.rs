//! The remote projects, services and hour types a link is chosen from: their
//! listing order, the choice of one by index, and the link that three
//! choices make.
use crate::copy::{copy_text, Duplicate};
use crate::error::Error;
use crate::link::Link;
use crate::order::{sort_by_key, sorted_by_key, with_key, Keyed};
use crate::text::{owned, push_str};
use vstd::prelude::*;

verus! {

/// A remote project.
#[derive(Clone, Debug)]
pub struct Project {
    pub id: String,
    pub name: String,
    pub status_label: Option<String>,
    pub start_date: Option<String>,
    pub end_date: Option<String>,
}

/// A remote service of a project.
#[derive(Clone, Debug)]
pub struct Service {
    pub id: String,
    pub name: Option<String>,
    pub status: Option<String>,
    pub start_date: Option<String>,
    pub end_date: Option<String>,
}

/// A remote hour type.
#[derive(Clone, Debug)]
pub struct HourType {
    pub id: String,
    pub label: String,
}

impl Duplicate for Project {
    fn duplicate(&self) -> (r: Project) {
        Project {
            id: self.id.clone(),
            name: self.name.clone(),
            status_label: copy_text(&self.status_label),
            start_date: copy_text(&self.start_date),
            end_date: copy_text(&self.end_date),
        }
    }
}

impl Duplicate for Service {
    fn duplicate(&self) -> (r: Service) {
        Service {
            id: self.id.clone(),
            name: copy_text(&self.name),
            status: copy_text(&self.status),
            start_date: copy_text(&self.start_date),
            end_date: copy_text(&self.end_date),
        }
    }
}

impl Duplicate for HourType {
    fn duplicate(&self) -> (r: HourType) {
        HourType { id: self.id.clone(), label: self.label.clone() }
    }
}

pub open spec fn text_or(t: Option<String>, default: Seq<char>) -> Seq<char> {
    match t {
        Some(s) => s@,
        None => default,
    }
}

/// Clones the text of `t`, or makes one of `default` where there is none.
pub fn text_or_default(t: &Option<String>, default: &str) -> (r: String)
    ensures
        r@ == text_or(*t, default@),
{
    match t {
        Some(s) => s.clone(),
        None => owned(default),
    }
}

/// Projects are listed by status label ("Unknown" where there is none),
/// then by name.
impl Keyed for Project {
    open spec fn key(&self) -> (Seq<char>, Seq<char>) {
        (text_or(self.status_label, "Unknown"@), self.name@)
    }

    fn sort_key(&self) -> (r: (String, String)) {
        (text_or_default(&self.status_label, "Unknown"), self.name.clone())
    }
}

/// Services are listed by name (empty where there is none).
impl Keyed for Service {
    open spec fn key(&self) -> (Seq<char>, Seq<char>) {
        (text_or(self.name, ""@), ""@)
    }

    fn sort_key(&self) -> (r: (String, String)) {
        (text_or_default(&self.name, ""), owned(""))
    }
}

/// Hour types are listed by label.
impl Keyed for HourType {
    open spec fn key(&self) -> (Seq<char>, Seq<char>) {
        (self.label@, ""@)
    }

    fn sort_key(&self) -> (r: (String, String)) {
        (self.label.clone(), owned(""))
    }
}

/// Puts `items` in their listing order; items that list alike keep their
/// order.
pub fn listing_order<T: Keyed>(items: Vec<T>) -> (r: Vec<T>)
    ensures
        sorted_by_key(r@),
        r@.to_multiset() == items@.to_multiset(),
        forall|k: (Seq<char>, Seq<char>)| #[trigger] with_key(r@, k) == with_key(items@, k),
{
    sort_by_key(items)
}

/// The option at `index` of those listed, or `InvalidSelection`.
pub fn select<T>(items: Vec<T>, index: usize) -> (r: Result<T, Error>)
    ensures
        index < items@.len() ==> r == Ok::<T, Error>(items@[index as int]),
        index >= items@.len() ==> r == Err::<T, Error>(Error::InvalidSelection),
{
    let mut items = items;
    if index < items.len() {
        Ok(items.swap_remove(index))
    } else {
        Err(Error::InvalidSelection)
    }
}

/// The description of a link: the hour type's label, the project's name and
/// the service's name ("Unnamed Service" where it has none).
pub open spec fn description_of(project: Project, service: Service, hour_type: HourType) -> Seq<
    char,
> {
    hour_type.label@ + " for "@ + project.name@ + " - "@ + text_or(
        service.name,
        "Unnamed Service"@,
    )
}

impl Link {
    /// The link under `alias` to the chosen project, service and hour type.
    pub fn from_choice(alias: String, project: &Project, service: &Service, hour_type: &HourType) -> (r:
        Link)
        ensures
            r.alias@ == alias@,
            r.project_id@ == project.id@,
            r.service_id@ == service.id@,
            r.hour_type_id@ == hour_type.id@,
            r.description@ == description_of(*project, *service, *hour_type),
    {
        let mut d = hour_type.label.clone();
        push_str(&mut d, " for ");
        push_str(&mut d, project.name.as_str());
        push_str(&mut d, " - ");
        let sname = text_or_default(&service.name, "Unnamed Service");
        push_str(&mut d, sname.as_str());
        Link {
            alias,
            project_id: project.id.clone(),
            service_id: service.id.clone(),
            hour_type_id: hour_type.id.clone(),
            description: d,
        }
    }
}

} // verus!
