//! Booked hours for display: each entry's description and time of day, and
//! the entries grouped by calendar day in the order of their start, with a
//! total for each day.
use crate::catalog::{text_or, text_or_default};
use crate::order::{sort_by_key, sorted_by_key, with_key, Keyed};
use crate::text::{decimal, digit_char, owned, padded, push_decimal, push_padded, push_str};
use vstd::prelude::*;

verus! {

broadcast use vstd::seq_lib::group_to_multiset_ensures;

/// An hour entry as the remote service lists it.
#[derive(Clone, Debug)]
pub struct HourRecord {
    /// The name of the entry's project, where the project has one.
    pub project_name: Option<String>,
    /// The entry's service, if any, with its name where it has one.
    pub service: Option<Option<String>>,
    pub note: Option<String>,
    /// The booked time in hundredths of an hour.
    pub hundredths: i32,
    /// The start, as "YYYY-MM-DD HH:MM:SS".
    pub start_date: Option<String>,
}

/// One displayed line: what was booked, how long, and at what time of day.
#[derive(Clone, Debug)]
pub struct LoggedHour {
    pub description: String,
    /// The booked time in hundredths of an hour.
    pub time: i32,
    pub updated_at: String,
}

pub struct LoggedHourView {
    pub description: Seq<char>,
    pub time: int,
    pub updated_at: Seq<char>,
}

impl View for LoggedHour {
    type V = LoggedHourView;

    open spec fn view(&self) -> LoggedHourView {
        LoggedHourView { description: self.description@, time: self.time as int, updated_at: self.updated_at@ }
    }
}

/// The entries of one day, under the day's date (no date for the entries
/// that come before the first dated one).
pub struct DayGroup {
    pub header: Option<String>,
    pub entries: Vec<LoggedHour>,
    /// The sum of the entries' times, in hundredths of an hour.
    pub total: i64,
}

pub struct DayGroupView {
    pub header: Option<Seq<char>>,
    pub entries: Seq<LoggedHourView>,
}

impl View for DayGroup {
    type V = DayGroupView;

    open spec fn view(&self) -> DayGroupView {
        DayGroupView {
            header: match self.header {
                Some(h) => Some(h@),
                None => None,
            },
            entries: self.entries@.map_values(|e: LoggedHour| e@),
        }
    }
}

impl DayGroup {
    /// Whether the day shows its total: only where it has more than one entry.
    pub fn shows_total(&self) -> (r: bool)
        ensures
            r == (self.entries@.len() > 1),
    {
        self.entries.len() > 1
    }
}

/// The position of the first space of `s`, or its length where it has none.
pub open spec fn first_space(s: Seq<char>) -> int
    decreases s.len(),
{
    if s.len() == 0 {
        0
    } else if s[0] == ' ' {
        0
    } else {
        1 + first_space(s.drop_first())
    }
}

/// The date part of a start: the text before the first space.
pub open spec fn day_of(s: Seq<char>) -> Seq<char> {
    s.subrange(0, first_space(s))
}

/// The time part of a start: the text between the first space and the next,
/// or "no time" where there is no space.
pub open spec fn time_of_day(s: Seq<char>) -> Seq<char> {
    let p = first_space(s);
    if p < s.len() {
        let rest = s.subrange(p + 1, s.len() as int);
        rest.subrange(0, first_space(rest))
    } else {
        "no time"@
    }
}

pub open spec fn description_of(r: HourRecord) -> Seq<char> {
    let service = match r.service {
        Some(n) => " / "@ + text_or(n, "Unnamed Service"@),
        None => Seq::empty(),
    };
    let note = match r.note {
        Some(n) => if n@.len() == 0 {
            Seq::empty()
        } else {
            ": "@ + n@
        },
        None => Seq::empty(),
    };
    text_or(r.project_name, "Unnamed project"@) + service + note
}

pub open spec fn logged_of(r: HourRecord) -> LoggedHourView {
    LoggedHourView {
        description: description_of(r),
        time: r.hundredths as int,
        updated_at: match r.start_date {
            Some(s) => time_of_day(s@),
            None => "unknown"@,
        },
    }
}

/// The header that the entries so far stand under ("unknown" before the
/// first dated entry).
pub open spec fn current_header(g: Seq<DayGroupView>) -> Seq<char> {
    if g.len() == 0 {
        "unknown"@
    } else {
        match g.last().header {
            Some(h) => h,
            None => "unknown"@,
        }
    }
}

/// The day groups of `s`, taken in order: an entry whose date differs from
/// the current header opens a new group; any other entry joins the last one.
pub open spec fn grouped(s: Seq<HourRecord>) -> Seq<DayGroupView>
    decreases s.len(),
{
    if s.len() == 0 {
        Seq::empty()
    } else {
        let g = grouped(s.drop_last());
        let r = s.last();
        let row = logged_of(r);
        let opens = match r.start_date {
            Some(d) => day_of(d@) != current_header(g),
            None => false,
        };
        if opens {
            g.push(DayGroupView { header: Some(day_of(r.start_date.unwrap()@)), entries: seq![row] })
        } else if g.len() == 0 {
            seq![DayGroupView { header: None, entries: seq![row] }]
        } else {
            g.update(
                g.len() - 1,
                DayGroupView { header: g.last().header, entries: g.last().entries.push(row) },
            )
        }
    }
}

pub open spec fn time_sum(s: Seq<LoggedHourView>) -> int
    decreases s.len(),
{
    if s.len() == 0 {
        0
    } else {
        time_sum(s.drop_last()) + s.last().time
    }
}

/// Entries are shown in the order of their start, those without one first.
impl Keyed for HourRecord {
    open spec fn key(&self) -> (Seq<char>, Seq<char>) {
        match self.start_date {
            Some(s) => ("+"@, s@),
            None => (""@, ""@),
        }
    }

    fn sort_key(&self) -> (r: (String, String)) {
        match &self.start_date {
            Some(s) => (owned("+"), s.clone()),
            None => (owned(""), owned("")),
        }
    }
}

/// The position of the first space of `s` at or after `from`.
fn find_space(s: &str, from: usize) -> (r: usize)
    requires
        from <= s@.len() <= usize::MAX,
    ensures
        r == from + first_space(s@.skip(from as int)),
        from <= r <= s@.len(),
{
    let n = s.unicode_len();
    let mut i = from;
    while i < n && s.get_char(i) != ' '
        invariant
            n == s@.len(),
            from <= i <= n,
            forall|k: int| from <= k < i ==> s@[k] != ' ',
        decreases n - i,
    {
        i = i + 1;
    }
    proof {
        lemma_first_space_at(s@.skip(from as int), i - from);
    }
    i
}

proof fn lemma_first_space_at(s: Seq<char>, p: int)
    requires
        0 <= p <= s.len(),
        forall|i: int| 0 <= i < p ==> s[i] != ' ',
        p < s.len() ==> s[p] == ' ',
    ensures
        first_space(s) == p,
    decreases s.len(),
{
    if s.len() > 0 && p > 0 {
        assert forall|i: int| 0 <= i < p - 1 implies s.drop_first()[i] != ' ' by {
            assert(s.drop_first()[i] == s[i + 1]);
        }
        lemma_first_space_at(s.drop_first(), p - 1);
    }
}

/// The date part of the start `s`.
pub fn day_text(s: &str) -> (r: String)
    ensures
        r@ == day_of(s@),
{
    let n = s.unicode_len();
    let p = find_space(s, 0);
    assert(s@.skip(0) =~= s@);
    String::from_str(s.substring_char(0, p))
}

/// The time part of the start `s`.
pub fn time_text(s: &str) -> (r: String)
    ensures
        r@ == time_of_day(s@),
{
    let n = s.unicode_len();
    let p = find_space(s, 0);
    assert(s@.skip(0) =~= s@);
    if p < n {
        let q = find_space(s, p + 1);
        let ghost rest = s@.subrange(p + 1, n as int);
        assert(s@.skip(p + 1) =~= rest);
        assert(s@.subrange(p + 1, q as int) =~= rest.subrange(0, first_space(rest)));
        String::from_str(s.substring_char(p + 1, q))
    } else {
        proof {
            reveal_strlit("no time");
        }
        owned("no time")
    }
}

/// The line that shows the entry `r`.
pub fn logged_hour(r: &HourRecord) -> (l: LoggedHour)
    ensures
        l@ == logged_of(*r),
{
    let mut d = text_or_default(&r.project_name, "Unnamed project");
    match &r.service {
        Some(n) => {
            push_str(&mut d, " / ");
            let name = text_or_default(n, "Unnamed Service");
            push_str(&mut d, name.as_str());
        },
        None => {},
    }
    match &r.note {
        Some(n) => {
            if n.as_str().unicode_len() > 0 {
                push_str(&mut d, ": ");
                push_str(&mut d, n.as_str());
            }
        },
        None => {},
    }
    let updated_at = match &r.start_date {
        Some(s) => time_text(s.as_str()),
        None => owned("unknown"),
    };
    assert(d@ =~= description_of(*r));
    LoggedHour { description: d, time: r.hundredths, updated_at }
}

pub open spec fn group_views(s: Seq<DayGroup>) -> Seq<DayGroupView> {
    s.map_values(|g: DayGroup| g@)
}

pub open spec fn totals_hold(s: Seq<DayGroup>) -> bool {
    forall|i: int| 0 <= i < s.len() ==> (#[trigger] s[i]).total == time_sum(s[i]@.entries)
}

proof fn lemma_time_sum_bound(s: Seq<LoggedHourView>)
    requires
        forall|i: int| 0 <= i < s.len() ==> -0x8000_0000 <= #[trigger] s[i].time < 0x8000_0000,
    ensures
        -0x8000_0000 * s.len() <= time_sum(s) <= 0x8000_0000 * s.len(),
    decreases s.len(),
{
    if s.len() > 0 {
        assert forall|i: int| 0 <= i < s.drop_last().len() implies -0x8000_0000
            <= #[trigger] s.drop_last()[i].time < 0x8000_0000 by {
            assert(s.drop_last()[i] == s[i]);
        }
        lemma_time_sum_bound(s.drop_last());
        assert(s.last() == s[s.len() - 1]);
    }
}

/// Groups the entries `records`, taken in their order, by day.
pub fn group_by_day(records: &Vec<HourRecord>) -> (r: Vec<DayGroup>)
    requires
        records@.len() <= 0x8000_0000,
    ensures
        group_views(r@) == grouped(records@),
        totals_hold(r@),
{
    let mut groups: Vec<DayGroup> = Vec::new();
    let mut i: usize = 0;
    proof {
        reveal_strlit("unknown");
    }
    while i < records.len()
        invariant
            i <= records@.len() <= 0x8000_0000,
            group_views(groups@) == grouped(records@.subrange(0, i as int)),
            totals_hold(groups@),
            forall|k: int| 0 <= k < groups@.len() ==> (#[trigger] groups@[k])@.entries.len() <= i,
        decreases records@.len() - i,
    {
        let rec = &records[i];
        let row = logged_hour(rec);
        let ghost pre = records@.subrange(0, i as int);
        let ghost g0 = grouped(pre);
        let ghost gs0 = groups@;
        assert(records@.subrange(0, i + 1).drop_last() =~= pre);
        assert(records@.subrange(0, i + 1).last() == *rec);
        let n = groups.len();
        let opens = match &rec.start_date {
            Some(d) => {
                let day = day_text(d.as_str());
                let same = if n == 0 {
                    day == owned("unknown")
                } else {
                    match &groups[n - 1].header {
                        Some(h) => day == *h,
                        None => day == owned("unknown"),
                    }
                };
                !same
            },
            None => false,
        };
        proof {
            if n > 0 {
                assert(g0.last() == groups@[n - 1]@);
            }
        }
        if opens {
            let header = match &rec.start_date {
                Some(d) => Some(day_text(d.as_str())),
                None => None,
            };
            let t = row.time as i64;
            let mut entries: Vec<LoggedHour> = Vec::new();
            entries.push(row);
            groups.push(DayGroup { header, entries, total: t });
            proof {
                let last = groups@[groups@.len() - 1];
                assert(last@.entries =~= seq![logged_of(*rec)]);
                assert(time_sum(last@.entries) == time_sum(seq![logged_of(*rec)].drop_last())
                    + logged_of(*rec).time);
                assert(group_views(groups@) =~= g0.push(last@));
            }
        } else if n == 0 {
            let t = row.time as i64;
            let mut entries: Vec<LoggedHour> = Vec::new();
            entries.push(row);
            groups.push(DayGroup { header: None, entries, total: t });
            proof {
                let last = groups@[0];
                assert(last@.entries =~= seq![logged_of(*rec)]);
                assert(time_sum(last@.entries) == time_sum(seq![logged_of(*rec)].drop_last())
                    + logged_of(*rec).time);
                assert(group_views(groups@) =~= seq![last@]);
            }
        } else {
            let mut g = groups.pop().unwrap();
            let ghost ge0 = g.entries@;
            proof {
                assert(g == gs0[n - 1]);
                let gv = g@.entries;
                assert forall|k: int| 0 <= k < gv.len() implies -0x8000_0000 <= #[trigger] gv[k].time
                    < 0x8000_0000 by {}
                lemma_time_sum_bound(g@.entries);
            }
            let t = row.time as i64;
            g.total = g.total + t;
            g.entries.push(row);
            groups.push(g);
            proof {
                let last = groups@[n - 1];
                assert(last@.entries =~= gs0[n - 1]@.entries.push(logged_of(*rec)));
                assert(last@.entries.drop_last() =~= gs0[n - 1]@.entries);
                assert(group_views(groups@) =~= g0.update(
                    g0.len() - 1,
                    DayGroupView { header: g0.last().header, entries: g0.last().entries.push(logged_of(*rec)) },
                ));
            }
        }
        i = i + 1;
        proof {
            assert forall|k: int| 0 <= k < groups@.len() implies (#[trigger] groups@[k]).total
                == time_sum(groups@[k]@.entries) by {
                if k < groups@.len() - 1 {
                    assert(groups@[k] == gs0[k]);
                }
            }
            assert forall|k: int| 0 <= k < groups@.len() implies (#[trigger] groups@[k])@.entries.len() <= i by {
                if k < groups@.len() - 1 {
                    assert(groups@[k] == gs0[k]);
                }
            }
        }
    }
    assert(records@.subrange(0, records@.len() as int) =~= records@);
    groups
}

/// Puts the entries `records` in the order of their start (entries with the
/// same start keep their order) and groups them by day.
pub fn day_groups(records: Vec<HourRecord>) -> (r: Vec<DayGroup>)
    requires
        records@.len() <= 0x8000_0000,
    ensures
        exists|s: Seq<HourRecord>|
            sorted_by_key(s) && s.to_multiset() == records@.to_multiset() && (forall|
                k: (Seq<char>, Seq<char>),
            | #[trigger] with_key(s, k) == with_key(records@, k)) && group_views(r@) == grouped(s),
        totals_hold(r@),
{
    let ghost orig = records@;
    let sorted = sort_by_key(records);
    proof {
        vstd::seq_lib::to_multiset_len(sorted@);
        vstd::seq_lib::to_multiset_len(orig);
    }
    group_by_day(&sorted)
}

/// A time in hundredths of an hour written as a decimal number of hours,
/// without trailing zeros after the point ("3", "2.5", "1.25").
pub open spec fn hours_text(h: int) -> Seq<char> {
    let a = if h < 0 {
        -h
    } else {
        h
    };
    let sign = if h < 0 {
        "-"@
    } else {
        Seq::empty()
    };
    let frac = a % 100;
    let tail = if frac == 0 {
        Seq::empty()
    } else if frac % 10 == 0 {
        seq!['.', digit_char((frac / 10) as nat)]
    } else {
        seq!['.'] + padded(frac as nat, 2)
    };
    sign + decimal((a / 100) as nat) + tail
}

/// Writes a time in hundredths of an hour as a decimal number of hours.
pub fn format_hours(h: i64) -> (r: String)
    requires
        h > i64::MIN,
    ensures
        r@ == hours_text(h as int),
{
    let a: u64 = if h < 0 {
        (-h) as u64
    } else {
        h as u64
    };
    let mut s = String::new();
    if h < 0 {
        push_str(&mut s, "-");
    }
    push_decimal(&mut s, a / 100);
    let frac = a % 100;
    proof {
        reveal_strlit(".");
    }
    if frac != 0 {
        push_str(&mut s, ".");
        if frac % 10 == 0 {
            push_decimal(&mut s, frac / 10);
        } else {
            push_padded(&mut s, frac, 2);
        }
    }
    assert(s@ =~= hours_text(h as int));
    s
}

} // verus!
