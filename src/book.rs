//! Composing a booking: reading the time argument (a decimal number of hours
//! or "fill"), the quarter-hour rounding of fill mode, the note built from
//! tickets and context, and the hour entry sent to the remote service.
use crate::copy::Duplicate;
use crate::date::{elapsed_seconds, Date, DateTime};
use crate::error::Error;
use crate::link::{Link, LinkView};
use crate::text::{
    all_digits, digits_value, lemma_digits_below, lemma_digits_concat, lemma_pow10_add,
    lemma_pow10_mono, pow10, pow10_u64, push_str, read_digits,
};
use vstd::prelude::*;

verus! {

/// A non-negative number of hours, `units / 10^scale`.
#[derive(Clone, Copy, Debug, PartialEq, Eq, Structural)]
pub struct Quantity {
    pub units: u64,
    pub scale: u32,
}

/// How the time of a booking is given.
#[derive(Clone, Copy, Debug, PartialEq, Eq, Structural)]
pub enum TimeSpec {
    /// A literal number of hours.
    Hours(Quantity),
    /// The time elapsed since the latest entry logged today.
    Fill,
}

/// The position of the first '.' in `s`, or its length where it has none.
pub open spec fn first_dot(s: Seq<char>) -> int
    decreases s.len(),
{
    if s.len() == 0 {
        0
    } else if s[0] == '.' {
        0
    } else {
        1 + first_dot(s.drop_first())
    }
}

pub open spec fn is_fill(s: Seq<char>) -> bool {
    s == seq!['f', 'i', 'l', 'l']
}

/// The number that `s` writes in decimal: digits, optionally a '.' and more
/// digits, at least one digit in all and at most eighteen.
pub open spec fn decimal_of(s: Seq<char>) -> Option<Quantity> {
    let p = first_dot(s);
    let int_part = s.subrange(0, p);
    let frac = if p < s.len() {
        s.subrange(p + 1, s.len() as int)
    } else {
        Seq::<char>::empty()
    };
    if all_digits(int_part) && all_digits(frac) && 1 <= int_part.len() + frac.len() <= 18 {
        Some(Quantity { units: digits_value(int_part + frac) as u64, scale: frac.len() as u32 })
    } else {
        None
    }
}

/// What the time argument `s` asks for, if anything.
pub open spec fn time_spec_of(s: Seq<char>) -> Option<TimeSpec> {
    if is_fill(s) {
        Some(TimeSpec::Fill)
    } else {
        match decimal_of(s) {
            Some(q) => Some(TimeSpec::Hours(q)),
            None => None,
        }
    }
}

proof fn lemma_first_dot_at(s: Seq<char>, p: int)
    requires
        0 <= p <= s.len(),
        forall|i: int| 0 <= i < p ==> s[i] != '.',
        p < s.len() ==> s[p] == '.',
    ensures
        first_dot(s) == p,
    decreases s.len(),
{
    if s.len() > 0 && p > 0 {
        assert forall|i: int| 0 <= i < p - 1 implies s.drop_first()[i] != '.' by {
            assert(s.drop_first()[i] == s[i + 1]);
        }
        lemma_first_dot_at(s.drop_first(), p - 1);
    }
}

proof fn lemma_units_fit(int_part: Seq<char>, frac: Seq<char>)
    requires
        all_digits(int_part),
        all_digits(frac),
        int_part.len() + frac.len() <= 18,
    ensures
        digits_value(int_part + frac) == digits_value(int_part) * pow10(frac.len())
            + digits_value(frac),
        digits_value(int_part) * pow10(frac.len()) + digits_value(frac) < 1_000_000_000_000_000_000,
        pow10(frac.len()) <= 1_000_000_000_000_000_000,
        digits_value(int_part) < 1_000_000_000_000_000_000,
        digits_value(frac) < 1_000_000_000_000_000_000,
{
    lemma_digits_below(int_part);
    lemma_digits_below(frac);
    lemma_digits_concat(int_part, frac);
    lemma_pow10_add(int_part.len(), frac.len());
    lemma_pow10_mono((int_part.len() + frac.len()) as nat, 18);
    lemma_pow10_mono(frac.len(), 18);
    reveal_with_fuel(pow10, 19);
    let a = digits_value(int_part) as int;
    let b = digits_value(frac) as int;
    let x = pow10(int_part.len()) as int;
    let y = pow10(frac.len()) as int;
    assert(a * y <= (x - 1) * y) by (nonlinear_arith)
        requires
            0 <= a <= x - 1,
            0 <= y,
    ;
    assert((x - 1) * y == x * y - y) by (nonlinear_arith);
    lemma_pow10_mono(int_part.len(), 18);
}

/// Reads the time argument of a booking: "fill", or a non-negative decimal
/// number of hours.
pub fn parse_time_spec(s: &str) -> (r: Result<TimeSpec, Error>)
    ensures
        time_spec_of(s@) matches Some(t) ==> r == Ok::<TimeSpec, Error>(t),
        time_spec_of(s@) is None ==> r == Err::<TimeSpec, Error>(Error::InvalidTime),
{
    let n = s.unicode_len();
    if n == 4 && s.get_char(0) == 'f' && s.get_char(1) == 'i' && s.get_char(2) == 'l'
        && s.get_char(3) == 'l' {
        assert(s@ =~= seq!['f', 'i', 'l', 'l']);
        return Ok(TimeSpec::Fill);
    }
    assert(!is_fill(s@)) by {
        if is_fill(s@) {
            assert(s@[0] == 'f' && s@[1] == 'i' && s@[2] == 'l' && s@[3] == 'l');
        }
    }
    let mut p: usize = 0;
    while p < n && s.get_char(p) != '.'
        invariant
            p <= n,
            n == s@.len(),
            forall|i: int| 0 <= i < p ==> s@[i] != '.',
        decreases n - p,
    {
        p = p + 1;
    }
    proof {
        lemma_first_dot_at(s@, p as int);
    }
    let flen: usize = if p < n {
        n - p - 1
    } else {
        0
    };
    let fstart: usize = if p < n {
        p + 1
    } else {
        n
    };
    let ghost int_part = s@.subrange(0, p as int);
    let ghost frac = s@.subrange(fstart as int, fstart + flen);
    assert(p < n ==> frac =~= s@.subrange(p + 1, s@.len() as int));
    assert(p >= n ==> frac =~= Seq::<char>::empty());
    if p + flen == 0 || p > 18 || flen > 18 || p + flen > 18 {
        return Err(Error::InvalidTime);
    }
    let ip = read_digits(s, 0, p);
    let fp = read_digits(s, fstart, flen);
    match (ip, fp) {
        (Some(iv), Some(fv)) => {
            proof {
                lemma_units_fit(int_part, frac);
                assert(iv as int == digits_value(int_part));
                assert(fv as int == digits_value(frac));
            }
            let pw = pow10_u64(flen as u32);
            let units = iv * pw + fv;
            Ok(TimeSpec::Hours(Quantity { units, scale: flen as u32 }))
        },
        _ => Err(Error::InvalidTime),
    }
}

/// The quarter hours that fill mode books for `minutes` elapsed: the whole
/// hours, and the rest of the minutes rounded up to a quarter (a rest of
/// fifteen minutes or less, zero included, counts one quarter).
pub open spec fn fill_quarters(minutes: nat) -> nat {
    let rest = minutes % 60;
    4 * (minutes / 60) + if rest <= 15 {
        1nat
    } else if rest <= 30 {
        2nat
    } else if rest <= 45 {
        3nat
    } else {
        4nat
    }
}

/// The hours that fill mode books after `minutes` have elapsed, in
/// hundredths.
pub fn fill_hours(minutes: u64) -> (r: Quantity)
    requires
        minutes <= 1_000_000_000_000,
    ensures
        r.scale == 2,
        r.units == 25 * fill_quarters(minutes as nat),
{
    let whole = minutes / 60;
    let rest = minutes % 60;
    let part: u64 = if rest <= 15 {
        1
    } else if rest <= 30 {
        2
    } else if rest <= 45 {
        3
    } else {
        4
    };
    Quantity { units: 25 * (4 * whole + part), scale: 2 }
}

/// The hours that fill mode books when the latest entry of today started at
/// `latest` and the time is now `now`; `NoRecentEntry` where there is no such
/// entry or it starts after `now`.
pub fn fill_since(latest: Option<DateTime>, now: DateTime) -> (r: Result<Quantity, Error>)
    requires
        now.wf(),
        latest matches Some(t) ==> t.wf(),
    ensures
        match latest {
            None => r == Err::<Quantity, Error>(Error::NoRecentEntry),
            Some(t) => if now.seconds() < t.seconds() {
                r == Err::<Quantity, Error>(Error::NoRecentEntry)
            } else {
                r == Ok::<Quantity, Error>(
                    Quantity {
                        units: (25 * fill_quarters(((now.seconds() - t.seconds()) / 60) as nat)) as u64,
                        scale: 2,
                    },
                )
            },
        },
{
    match latest {
        None => Err(Error::NoRecentEntry),
        Some(t) => {
            let secs = elapsed_seconds(t, now);
            if secs < 0 {
                Err(Error::NoRecentEntry)
            } else {
                proof {
                    crate::date::lemma_seconds_range(t);
                    crate::date::lemma_seconds_range(now);
                }
                Ok(fill_hours(secs as u64 / 60))
            }
        },
    }
}

/// The ticket references joined by '+'.
pub open spec fn joined(t: Seq<Seq<char>>) -> Seq<char>
    decreases t.len(),
{
    if t.len() == 0 {
        Seq::empty()
    } else if t.len() == 1 {
        t[0]
    } else {
        joined(t.drop_last()) + seq!['+'] + t.last()
    }
}

pub open spec fn texts(t: Seq<String>) -> Seq<Seq<char>> {
    t.map_values(|s: String| s@)
}

/// The note of a booking: the tickets in brackets, joined by '+' and
/// followed by a space, then the context.
pub open spec fn note_of(tickets: Option<Seq<Seq<char>>>, context: Option<Seq<char>>) -> Seq<
    char,
> {
    let head = match tickets {
        Some(t) => seq!['['] + joined(t) + seq![']', ' '],
        None => Seq::empty(),
    };
    let tail = match context {
        Some(c) => c,
        None => Seq::empty(),
    };
    head + tail
}

/// Builds the note of a booking from its tickets and context.
pub fn format_note(tickets: &Option<Vec<String>>, context: &Option<String>) -> (r: String)
    ensures
        r@ == note_of(
            match tickets {
                Some(t) => Some(texts(t@)),
                None => None,
            },
            match context {
                Some(c) => Some(c@),
                None => None,
            },
        ),
{
    let mut s = String::new();
    proof {
        reveal_strlit("[");
        reveal_strlit("+");
        reveal_strlit("] ");
    }
    match tickets {
        Some(t) => {
            push_str(&mut s, "[");
            let mut i: usize = 0;
            while i < t.len()
                invariant
                    i <= t@.len(),
                    s@ == seq!['['] + joined(texts(t@).subrange(0, i as int)),
                decreases t@.len() - i,
            {
                let ghost before = s@;
                proof {
                    reveal_strlit("+");
                }
                if i > 0 {
                    push_str(&mut s, "+");
                }
                push_str(&mut s, t[i].as_str());
                proof {
                    let sub = texts(t@).subrange(0, i + 1);
                    assert(sub.drop_last() =~= texts(t@).subrange(0, i as int));
                    assert(sub.last() == t@[i as int]@);
                    if i == 0 {
                        assert(sub.len() == 1);
                        assert(s@ =~= seq!['['] + joined(sub));
                    } else {
                        assert(s@ =~= before + seq!['+'] + t@[i as int]@);
                        assert(joined(sub) == joined(sub.drop_last()) + seq!['+'] + sub.last());
                        assert(s@ =~= seq!['['] + joined(sub));
                    }
                }
                i = i + 1;
            }
            assert(texts(t@).subrange(0, t@.len() as int) =~= texts(t@));
            proof {
                reveal_strlit("] ");
            }
            push_str(&mut s, "] ");
        },
        None => {},
    }
    match context {
        Some(c) => push_str(&mut s, c.as_str()),
        None => {},
    }
    proof {
        let head = match tickets {
            Some(t) => seq!['['] + joined(texts(t@)) + seq![']', ' '],
            None => Seq::empty(),
        };
        let tail = match context {
            Some(c) => c@,
            None => Seq::<char>::empty(),
        };
        assert(s@ =~= head + tail);
    }
    s
}

/// An hour entry to be booked with the remote service.
#[derive(Clone, Debug)]
pub struct HourEntry {
    pub employee_id: String,
    pub project_id: String,
    pub service_id: String,
    pub hour_type_id: String,
    pub hours: Quantity,
    pub start_date: DateTime,
    pub note: String,
}

pub open spec fn tickets_view(tickets: Option<Vec<String>>) -> Option<Seq<Seq<char>>> {
    match tickets {
        Some(t) => Some(texts(t@)),
        None => None,
    }
}

pub open spec fn context_view(context: Option<String>) -> Option<Seq<char>> {
    match context {
        Some(c) => Some(c@),
        None => None,
    }
}

/// Whether `e` books `hours` under the link `link` for `employee_id`, with
/// the note of `tickets` and `context`, starting at midnight of `date` where
/// one is given and at `now` otherwise.
pub open spec fn is_entry(
    e: HourEntry,
    link: LinkView,
    employee_id: Seq<char>,
    hours: Quantity,
    tickets: Option<Vec<String>>,
    context: Option<String>,
    date: Option<Date>,
    now: DateTime,
) -> bool {
    &&& e.employee_id@ == employee_id
    &&& e.project_id@ == link.project_id
    &&& e.service_id@ == link.service_id
    &&& e.hour_type_id@ == link.hour_type_id
    &&& e.hours == hours
    &&& e.start_date == match date {
        Some(d) => DateTime { date: d, hour: 0, minute: 0, second: 0 },
        None => now,
    }
    &&& e.note@ == note_of(tickets_view(tickets), context_view(context))
}

impl Duplicate for HourEntry {
    fn duplicate(&self) -> (r: HourEntry) {
        HourEntry {
            employee_id: self.employee_id.clone(),
            project_id: self.project_id.clone(),
            service_id: self.service_id.clone(),
            hour_type_id: self.hour_type_id.clone(),
            hours: self.hours,
            start_date: self.start_date,
            note: self.note.clone(),
        }
    }
}

/// The entry that books `hours` under `link` for `employee_id`, starting at
/// midnight of `date` where one is given and at `now` otherwise.
pub fn compose(
    link: &Link,
    employee_id: &String,
    hours: Quantity,
    tickets: &Option<Vec<String>>,
    context: &Option<String>,
    date: Option<Date>,
    now: DateTime,
) -> (r: HourEntry)
    ensures
        is_entry(r, link@, employee_id@, hours, *tickets, *context, date, now),
{
    let start_date = match date {
        Some(d) => DateTime::midnight(d),
        None => now,
    };
    HourEntry {
        employee_id: employee_id.clone(),
        project_id: link.project_id.clone(),
        service_id: link.service_id.clone(),
        hour_type_id: link.hour_type_id.clone(),
        hours,
        start_date,
        note: format_note(tickets, context),
    }
}

} // verus!
