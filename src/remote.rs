//! What the library asks of the remote service: paginated listings, whose
//! pages are collected by a `Pager`, and the query parameters of each request.
use crate::date::{format_timestamp, timestamp_text, DateTime};
use crate::text::{decimal, owned, push_decimal};
use vstd::prelude::*;

verus! {

/// The number of items that one request asks for.
pub const PAGE_SIZE: usize = 100;

/// The pages of a listing gathered so far. Each request asks for
/// `PAGE_SIZE` items from `offset`; a page with fewer ends the listing.
pub struct Pager<T> {
    pub items: Vec<T>,
    pub offset: usize,
    pub done: bool,
}

/// A query parameter: a name and its value.
pub type Param = (String, String);

pub open spec fn param_view(p: Param) -> (Seq<char>, Seq<char>) {
    (p.0@, p.1@)
}

pub open spec fn params_view(s: Seq<Param>) -> Seq<(Seq<char>, Seq<char>)> {
    s.map_values(|p: Param| param_view(p))
}

/// The parameters of the request for the page at `offset`, then `extra`.
pub open spec fn page_params_view(offset: nat, extra: Seq<Param>) -> Seq<(Seq<char>, Seq<char>)> {
    seq![("limit"@, decimal(PAGE_SIZE as nat)), ("offset"@, decimal(offset))] + params_view(extra)
}

impl<T> Pager<T> {
    /// Every page so far held `PAGE_SIZE` items, except a last one.
    pub open spec fn wf(&self) -> bool {
        !self.done ==> self.offset == self.items@.len()
    }

    /// A listing that has not been asked for yet.
    pub fn new() -> (r: Pager<T>)
        ensures
            r.wf(),
            r.items@.len() == 0,
            r.offset == 0,
            !r.done,
    {
        Pager { items: Vec::new(), offset: 0, done: false }
    }

    /// The offset of the next page to ask for, or `None` once the listing is
    /// complete.
    pub fn next_offset(&self) -> (r: Option<usize>)
        ensures
            self.done ==> r is None,
            !self.done ==> r == Some(self.offset),
    {
        if self.done {
            None
        } else {
            Some(self.offset)
        }
    }

    /// Adds the page that the request at `offset` returned.
    pub fn accept(&mut self, page: Vec<T>)
        requires
            old(self).wf(),
            !old(self).done,
        ensures
            final(self).wf(),
            final(self).items@ == old(self).items@ + page@,
            final(self).done == (page@.len() < PAGE_SIZE),
            !final(self).done ==> final(self).offset == old(self).offset + page@.len(),
    {
        let n = page.len();
        let mut page = page;
        self.items.append(&mut page);
        if n < PAGE_SIZE {
            self.done = true;
        } else {
            self.offset = self.items.len();
        }
    }

    /// The items of all pages, in the order in which they came.
    pub fn into_items(self) -> (r: Vec<T>)
        ensures
            r@ == self.items@,
    {
        self.items
    }

    /// The parameters of the next request: the page size and offset, then
    /// `extra`.
    pub fn page_params(&self, extra: &Vec<Param>) -> (r: Vec<Param>)
        ensures
            params_view(r@) == page_params_view(self.offset as nat, extra@),
    {
        let mut limit = String::new();
        push_decimal(&mut limit, PAGE_SIZE as u64);
        let mut off = String::new();
        push_decimal(&mut off, self.offset as u64);
        let mut r: Vec<Param> = Vec::new();
        r.push((owned("limit"), limit));
        r.push((owned("offset"), off));
        let mut i: usize = 0;
        while i < extra.len()
            invariant
                i <= extra@.len(),
                params_view(r@) == seq![
                    ("limit"@, decimal(PAGE_SIZE as nat)),
                    ("offset"@, decimal(self.offset as nat)),
                ] + params_view(extra@.subrange(0, i as int)),
            decreases extra@.len() - i,
        {
            let p = (extra[i].0.clone(), extra[i].1.clone());
            let ghost before = r@;
            r.push(p);
            assert(params_view(r@) =~= params_view(before).push(param_view(extra@[i as int])));
            i = i + 1;
            assert(params_view(extra@.subrange(0, i as int)) =~= params_view(
                extra@.subrange(0, i - 1),
            ).push(param_view(extra@[i - 1])));
        }
        assert(extra@.subrange(0, extra@.len() as int) =~= extra@);
        assert(params_view(r@) =~= seq![
            ("limit"@, decimal(PAGE_SIZE as nat)),
            ("offset"@, decimal(self.offset as nat)),
        ] + params_view(extra@));
        r
    }
}

/// The filter that lists the services of the project `project_id`.
pub fn service_filter(project_id: &String) -> (r: Vec<Param>)
    ensures
        params_view(r@) == seq![
            ("q[project_id]"@, project_id@),
        ],
{
    let mut r: Vec<Param> = Vec::new();
    r.push((owned("q[project_id]"), project_id.clone()));
    assert(params_view(r@) =~= seq![
        ("q[project_id]"@, project_id@),
    ]);
    r
}

/// The filter that lists the hours of `employee_id` that start from `start`
/// up to `end`, both included.
pub fn hours_filter(employee_id: &String, start: DateTime, end: DateTime) -> (r: Vec<Param>)
    ensures
        params_view(r@) == seq![
            ("q[employee.id]"@, employee_id@),
            (
                "q[start_date][ge]"@,
                timestamp_text(start),
            ),
            (
                "q[start_date][le]"@,
                timestamp_text(end),
            ),
        ],
{
    let mut r: Vec<Param> = Vec::new();
    r.push((owned("q[employee.id]"), employee_id.clone()));
    r.push((owned("q[start_date][ge]"), format_timestamp(start)));
    r.push((owned("q[start_date][le]"), format_timestamp(end)));
    assert(params_view(r@) =~= seq![
        ("q[employee.id]"@, employee_id@),
        (
            "q[start_date][ge]"@,
            timestamp_text(start),
        ),
        (
            "q[start_date][le]"@,
            timestamp_text(end),
        ),
    ]);
    r
}

/// Adds the page that the last request returned to `pager`, and gives the
/// parameters of the next request, if the listing goes on.
pub fn advance<T>(pager: Pager<T>, page: Vec<T>, extra: &Vec<Param>) -> (r: (Pager<T>, Option<Vec<Param>>))
    requires
        pager.wf(),
        !pager.done,
    ensures
        r.0.wf(),
        r.0.items@ == pager.items@ + page@,
        r.0.done == (page@.len() < PAGE_SIZE),
        r.0.done ==> r.1 is None,
        !r.0.done ==> (r.1 matches Some(p) && params_view(p@) == page_params_view(
            r.0.offset as nat,
            extra@,
        )) && r.0.offset == pager.offset + page@.len(),
{
    let mut pager = pager;
    pager.accept(page);
    if pager.done {
        (pager, None)
    } else {
        let p = pager.page_params(extra);
        (pager, Some(p))
    }
}

} // verus!
