//! The rows of the tables that list links and the options to choose from:
//! the header of each column, the text of each cell, and whether a row
//! stands for something still open.
use crate::catalog::{text_or, text_or_default, HourType, Project, Service};
use crate::link::Link;
use crate::text::{decimal, owned, push_decimal};
use vstd::prelude::*;

verus! {

/// The cells of a row, and whether it is shown as open.
pub struct TableRow {
    pub cells: Vec<String>,
    pub active: bool,
}

pub open spec fn cells_view(v: Seq<String>) -> Seq<Seq<char>> {
    v.map_values(|s: String| s@)
}

/// Things listed one per row of a table.
pub trait Tabulate {
    spec fn headers_spec() -> Seq<Seq<char>>;

    spec fn cells_spec(&self, index: nat) -> Seq<Seq<char>>;

    spec fn active_spec(&self) -> bool;

    fn headers() -> (r: Vec<String>)
        ensures
            cells_view(r@) == Self::headers_spec(),
    ;

    fn row(&self, index: usize) -> (r: TableRow)
        ensures
            cells_view(r.cells@) == self.cells_spec(index as nat),
            r.active == self.active_spec(),
    ;
}

fn index_text(index: usize) -> (r: String)
    ensures
        r@ == decimal(index as nat),
{
    let mut s = String::new();
    push_decimal(&mut s, index as u64);
    s
}

fn texts2(a: String, b: String) -> (r: Vec<String>)
    ensures
        cells_view(r@) == seq![a@, b@],
{
    let mut v = Vec::new();
    v.push(a);
    v.push(b);
    assert(cells_view(v@) =~= seq![a@, b@]);
    v
}

fn texts3(a: String, b: String, c: String) -> (r: Vec<String>)
    ensures
        cells_view(r@) == seq![a@, b@, c@],
{
    let mut v = Vec::new();
    v.push(a);
    v.push(b);
    v.push(c);
    assert(cells_view(v@) =~= seq![a@, b@, c@]);
    v
}

fn texts5(a: String, b: String, c: String, d: String, e: String) -> (r: Vec<String>)
    ensures
        cells_view(r@) == seq![a@, b@, c@, d@, e@],
{
    let mut v = Vec::new();
    v.push(a);
    v.push(b);
    v.push(c);
    v.push(d);
    v.push(e);
    assert(cells_view(v@) =~= seq![a@, b@, c@, d@, e@]);
    v
}

/// Whether the optional text `t` is `word`.
fn text_is(t: &Option<String>, word: &str) -> (r: bool)
    ensures
        r == (t matches Some(s) && s@ == word@),
{
    match t {
        Some(s) => *s == owned(word),
        None => false,
    }
}

/// A project row: index, name, start, end and status ("Unknown" where
/// missing); open where its status is "tab_pactive".
impl Tabulate for Project {
    open spec fn headers_spec() -> Seq<Seq<char>> {
        seq!["Index"@, "Project Name"@, "Start Date"@, "End Date"@, "Status"@]
    }

    open spec fn cells_spec(&self, index: nat) -> Seq<Seq<char>> {
        seq![
            decimal(index),
            self.name@,
            text_or(self.start_date, "Unknown"@),
            text_or(self.end_date, "Unknown"@),
            text_or(self.status_label, "Unknown"@),
        ]
    }

    open spec fn active_spec(&self) -> bool {
        self.status_label matches Some(s) && s@ == "tab_pactive"@
    }

    fn headers() -> (r: Vec<String>) {
        texts5(owned("Index"), owned("Project Name"), owned("Start Date"), owned("End Date"), owned("Status"))
    }

    fn row(&self, index: usize) -> (r: TableRow) {
        TableRow {
            cells: texts5(
                index_text(index),
                self.name.clone(),
                text_or_default(&self.start_date, "Unknown"),
                text_or_default(&self.end_date, "Unknown"),
                text_or_default(&self.status_label, "Unknown"),
            ),
            active: text_is(&self.status_label, "tab_pactive"),
        }
    }
}

/// A service row: index, name, start, end and status ("Unknown" where
/// missing); open where its status is "open".
impl Tabulate for Service {
    open spec fn headers_spec() -> Seq<Seq<char>> {
        seq!["Index"@, "Service Name"@, "Start Date"@, "End Date"@, "Status"@]
    }

    open spec fn cells_spec(&self, index: nat) -> Seq<Seq<char>> {
        seq![
            decimal(index),
            text_or(self.name, "Unknown"@),
            text_or(self.start_date, "Unknown"@),
            text_or(self.end_date, "Unknown"@),
            text_or(self.status, "Unknown"@),
        ]
    }

    open spec fn active_spec(&self) -> bool {
        self.status matches Some(s) && s@ == "open"@
    }

    fn headers() -> (r: Vec<String>) {
        texts5(owned("Index"), owned("Service Name"), owned("Start Date"), owned("End Date"), owned("Status"))
    }

    fn row(&self, index: usize) -> (r: TableRow) {
        TableRow {
            cells: texts5(
                index_text(index),
                text_or_default(&self.name, "Unknown"),
                text_or_default(&self.start_date, "Unknown"),
                text_or_default(&self.end_date, "Unknown"),
                text_or_default(&self.status, "Unknown"),
            ),
            active: text_is(&self.status, "open"),
        }
    }
}

/// An hour type row: index and label.
impl Tabulate for HourType {
    open spec fn headers_spec() -> Seq<Seq<char>> {
        seq!["Index"@, "Name"@]
    }

    open spec fn cells_spec(&self, index: nat) -> Seq<Seq<char>> {
        seq![decimal(index), self.label@]
    }

    open spec fn active_spec(&self) -> bool {
        true
    }

    fn headers() -> (r: Vec<String>) {
        texts2(owned("Index"), owned("Name"))
    }

    fn row(&self, index: usize) -> (r: TableRow) {
        TableRow { cells: texts2(index_text(index), self.label.clone()), active: true }
    }
}

/// A link row: index, alias and description.
impl Tabulate for Link {
    open spec fn headers_spec() -> Seq<Seq<char>> {
        seq!["Index"@, "Alias"@, "Description"@]
    }

    open spec fn cells_spec(&self, index: nat) -> Seq<Seq<char>> {
        seq![decimal(index), self.alias@, self.description@]
    }

    open spec fn active_spec(&self) -> bool {
        true
    }

    fn headers() -> (r: Vec<String>) {
        texts3(owned("Index"), owned("Alias"), owned("Description"))
    }

    fn row(&self, index: usize) -> (r: TableRow) {
        TableRow {
            cells: texts3(index_text(index), self.alias.clone(), self.description.clone()),
            active: true,
        }
    }
}

} // verus!
