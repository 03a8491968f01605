//! What is stored of events and what follows from it: the occurrences that a
//! recurring base event has up to a given day, the text of the file that
//! stores an event and its reading, the name of that file, and the choice of
//! the events that a cleanup removes.

use crate::app::{views, CalendarEvent, EventView, Recurrence};
use crate::calendar::{
    clamp_day, clamped_day, lemma_day_number_bounds, lemma_day_number_ordered, lemma_plus_days,
    lemma_plus_days_valid, lemma_reachable, max_day_number, valid_ymd, Date, Time, MAX_YEAR,
};
use crate::event_handling::{
    clock_text, clock_time_of, parse_clock_time, recurrence_at, recurrence_from_index,
    recurrence_index, recurrence_index_of, recurrence_name, recurrence_to_str,
};
use crate::text::{
    alphanumeric, chars_of, collapse_runs, collapsed, decimal_text, fields, find_text_from,
    first_occurrence, limit_bytes, limited, occurs_at, padded_two, push_all, push_decimal,
    push_padded_two, slice_of, split, starts_with, string_of, strip_char, texts, trim, trimmed,
    without_leading, without_trailing,
};
use chrono::{Datelike, Months, NaiveDate};
use vstd::prelude::*;

verus! {

/// The date that follows `current` in a series: one day later, seven days
/// later, the next month, or the next year. A monthly or yearly step aims at
/// day `anchor_day` of the month and settles for the month's last day where
/// the month is shorter. `None` where the series ends: an event that does not
/// repeat, a monthly series that has reached December, or a step past the last
/// date that can be held.
pub open spec fn step_after(recurrence: Recurrence, anchor_day: int, current: Date) -> Option<
    Date,
> {
    match recurrence {
        Recurrence::Never => None,
        Recurrence::Daily => if current.day_number() + 1 <= max_day_number() {
            Some(current.plus_days(1))
        } else {
            None
        },
        Recurrence::Weekly => if current.day_number() + 7 <= max_day_number() {
            Some(current.plus_days(7))
        } else {
            None
        },
        Recurrence::Monthly => if current.month < 12 {
            Some(
                Date {
                    year: current.year,
                    month: (current.month + 1) as u32,
                    day: clamped_day(current.year as int, current.month + 1, anchor_day) as u32,
                },
            )
        } else {
            None
        },
        Recurrence::Yearly => if current.year < MAX_YEAR {
            Some(
                Date {
                    year: (current.year + 1) as i32,
                    month: current.month,
                    day: clamped_day(current.year + 1, current.month as int, anchor_day) as u32,
                },
            )
        } else {
            None
        },
    }
}

/// The dates of a series after `current`, up to and including `until`: each
/// is the step after the one before it, and the sequence stops before the
/// first step that passes `until`.
pub open spec fn dates_after(
    recurrence: Recurrence,
    anchor_day: int,
    current: Date,
    until: Date,
) -> Seq<Date>
    decreases until.day_number() - current.day_number(),
{
    match step_after(recurrence, anchor_day, current) {
        Some(next) => if current.day_number() < next.day_number() <= until.day_number() {
            seq![next] + dates_after(recurrence, anchor_day, next, until)
        } else {
            Seq::empty()
        },
        None => Seq::empty(),
    }
}

/// The occurrence of `base` on the day `on`: the base event's texts and
/// times, `on` as its start, the base event's start as its `base_date`, and an
/// end as many days after `on` as the base event's end lies after its start.
pub open spec fn occurrence_on(base: EventView, on: Date) -> EventView {
    EventView {
        id: base.id,
        date: on,
        time: base.time,
        title: base.title,
        description: base.description,
        recurrence: Recurrence::Never,
        is_recurring_instance: true,
        base_date: Some(base.start_date),
        start_date: on,
        end_date: match base.end_date {
            Some(end) => Some(on.plus_days(end.day_number() - base.start_date.day_number())),
            None => None,
        },
        start_time: base.start_time,
        end_time: base.end_time,
        is_all_day: base.is_all_day,
    }
}

/// The occurrences of `base` after its own day, up to and including `until`.
pub open spec fn expansion(base: EventView, until: Date) -> Seq<EventView> {
    dates_after(base.recurrence, base.start_date.day as int, base.start_date, until).map_values(
        |on: Date| occurrence_on(base, on),
    )
}

/// Whether the end of every occurrence up to `until` is a date that can be
/// held: the event has no end, or the day `until` moved by the event's length
/// is no later than the last date.
pub open spec fn span_fits(base: EventView, until: Date) -> bool {
    base.end_date matches Some(end) ==> until.day_number() + (end.day_number()
        - base.start_date.day_number()) <= max_day_number()
}

/// A step leads from a valid date to a later valid date.
pub proof fn lemma_step_after(recurrence: Recurrence, anchor_day: int, current: Date)
    requires
        current.is_valid(),
        1 <= anchor_day <= 31,
    ensures
        step_after(recurrence, anchor_day, current) matches Some(next) ==> next.is_valid()
            && current.before(next) && current.day_number() < next.day_number(),
{
    match step_after(recurrence, anchor_day, current) {
        Some(next) => {
            match recurrence {
                Recurrence::Daily => {
                    lemma_reachable(current, 1);
                },
                Recurrence::Weekly => {
                    lemma_reachable(current, 7);
                },
                _ => {},
            }
            lemma_day_number_ordered(current, next);
        },
        None => {},
    }
}

/// The dates of a series are valid, lie after the date they start from and
/// no later than `until`, and grow strictly.
pub proof fn lemma_dates_after(recurrence: Recurrence, anchor_day: int, current: Date, until: Date)
    requires
        current.is_valid(),
        until.is_valid(),
        1 <= anchor_day <= 31,
    ensures
        forall|i: int|
            0 <= i < dates_after(recurrence, anchor_day, current, until).len() ==> {
                let date = #[trigger] dates_after(recurrence, anchor_day, current, until)[i];
                date.is_valid() && current.before(date) && date.on_or_before(until)
            },
        forall|i: int, j: int|
            0 <= i < j < dates_after(recurrence, anchor_day, current, until).len()
                ==> #[trigger] dates_after(recurrence, anchor_day, current, until)[i].before(
                #[trigger] dates_after(recurrence, anchor_day, current, until)[j],
            ),
    decreases until.day_number() - current.day_number(),
{
    let dates = dates_after(recurrence, anchor_day, current, until);
    lemma_step_after(recurrence, anchor_day, current);
    match step_after(recurrence, anchor_day, current) {
        Some(next) => {
            if current.day_number() < next.day_number() <= until.day_number() {
                let rest = dates_after(recurrence, anchor_day, next, until);
                lemma_dates_after(recurrence, anchor_day, next, until);
                lemma_day_number_ordered(next, until);
                assert forall|i: int| 0 <= i < dates.len() implies {
                    let date = #[trigger] dates[i];
                    date.is_valid() && current.before(date) && date.on_or_before(until)
                } by {
                    if i > 0 {
                        assert(dates[i] == rest[i - 1]);
                    }
                }
                assert forall|i: int, j: int| 0 <= i < j < dates.len() implies #[trigger] dates[i].before(
                    #[trigger] dates[j],
                ) by {
                    assert(dates[j] == rest[j - 1]);
                    if i > 0 {
                        assert(dates[i] == rest[i - 1]);
                    }
                }
            }
        },
        None => {},
    }
}

/// Expansion depends on the base event and the bound alone: what two calls
/// return for the same event and bound is the same sequence.
pub proof fn lemma_expansion_deterministic(
    base: EventView,
    until: Date,
    first: Seq<EventView>,
    second: Seq<EventView>,
)
    requires
        first == expansion(base, until),
        second == expansion(base, until),
    ensures
        first == second,
{
}

/// An event that does not repeat has no occurrences.
pub proof fn lemma_expansion_of_single_event(base: EventView, until: Date)
    requires
        base.recurrence == Recurrence::Never,
    ensures
        expansion(base, until).len() == 0,
{
}

/// The occurrences of a base event start after the base event's own day and
/// no later than `until`, on strictly growing days. Each is marked as an
/// occurrence, does not repeat itself, and names the base event's start as
/// its origin.
pub proof fn lemma_expansion_ordered(base: EventView, until: Date)
    requires
        base.is_valid(),
        until.is_valid(),
    ensures
        forall|i: int|
            0 <= i < expansion(base, until).len() ==> {
                let occurrence = #[trigger] expansion(base, until)[i];
                &&& occurrence.start_date.is_valid()
                &&& base.start_date.before(occurrence.start_date)
                &&& occurrence.start_date.on_or_before(until)
                &&& occurrence.is_recurring_instance
                &&& occurrence.recurrence == Recurrence::Never
                &&& occurrence.base_date == Some(base.start_date)
                &&& occurrence.title == base.title
            },
        forall|i: int, j: int|
            0 <= i < j < expansion(base, until).len() ==> (#[trigger] expansion(
                base,
                until,
            )[i]).start_date.before((#[trigger] expansion(base, until)[j]).start_date),
{
    let dates = dates_after(base.recurrence, base.start_date.day as int, base.start_date, until);
    lemma_dates_after(base.recurrence, base.start_date.day as int, base.start_date, until);
    assert forall|i: int, j: int| 0 <= i < j < expansion(base, until).len() implies (
    #[trigger] expansion(base, until)[i]).start_date.before(
        (#[trigger] expansion(base, until)[j]).start_date,
    ) by {
        assert(dates[i].before(dates[j]));
    }
    assert forall|i: int| 0 <= i < expansion(base, until).len() implies {
        let occurrence = #[trigger] expansion(base, until)[i];
        &&& occurrence.start_date.is_valid()
        &&& base.start_date.before(occurrence.start_date)
        &&& occurrence.start_date.on_or_before(until)
    } by {
        assert(dates[i].is_valid());
    }
}

/// An occurrence lasts as many days as its base event: its end lies as far
/// after its start as the base event's end lies after the base event's start.
pub proof fn lemma_expansion_keeps_span(base: EventView, until: Date, i: int)
    requires
        base.is_valid(),
        until.is_valid(),
        span_fits(base, until),
        0 <= i < expansion(base, until).len(),
    ensures
        base.end_date is None ==> expansion(base, until)[i].end_date is None,
        base.end_date matches Some(base_end) ==> (expansion(base, until)[i].end_date matches Some(
            end,
        ) && end.is_valid() && end.day_number() - expansion(base, until)[i].start_date.day_number()
            == base_end.day_number() - base.start_date.day_number()),
{
    let dates = dates_after(base.recurrence, base.start_date.day as int, base.start_date, until);
    lemma_dates_after(base.recurrence, base.start_date.day as int, base.start_date, until);
    let on = dates[i];
    assert(on.is_valid());
    if let Some(base_end) = base.end_date {
        lemma_day_number_ordered(base.start_date, on);
        lemma_day_number_ordered(on, until);
        lemma_day_number_bounds(base_end);
        lemma_plus_days_valid(on, base_end.day_number() - base.start_date.day_number());
    }
}

/// The day of a yearly series that lies `years` years after `start`: the same
/// month and day of that year, or the month's last day where it has no such
/// day.
pub open spec fn yearly_date(start: Date, years: int) -> Date {
    Date {
        year: (start.year + years) as i32,
        month: start.month,
        day: clamped_day(start.year + years, start.month as int, start.day as int) as u32,
    }
}

/// The dates of a yearly series that has come to its `k`th year are the days
/// of the years after it, one for each year and none left out, as far as
/// they lie on or before `until`.
pub proof fn lemma_yearly_dates_from(start: Date, k: int, until: Date)
    requires
        start.is_valid(),
        until.is_valid(),
        0 <= k,
        start.year + k <= MAX_YEAR,
    ensures
        ({
            let dates = dates_after(
                Recurrence::Yearly,
                start.day as int,
                yearly_date(start, k),
                until,
            );
            &&& forall|i: int| 0 <= i < dates.len() ==> #[trigger] dates[i] == yearly_date(
                start,
                k + 1 + i,
            )
            &&& start.year + k + dates.len() <= MAX_YEAR
            &&& start.year + k + dates.len() == MAX_YEAR || until.before(
                yearly_date(start, k + 1 + dates.len() as int),
            )
        }),
    decreases MAX_YEAR - (start.year + k),
{
    let current = yearly_date(start, k);
    let dates = dates_after(Recurrence::Yearly, start.day as int, current, until);
    assert(current.is_valid());
    lemma_step_after(Recurrence::Yearly, start.day as int, current);
    if start.year + k < MAX_YEAR {
        let next = yearly_date(start, k + 1);
        assert(step_after(Recurrence::Yearly, start.day as int, current) == Some(next));
        lemma_day_number_ordered(next, until);
        if next.day_number() <= until.day_number() {
            lemma_yearly_dates_from(start, k + 1, until);
            let rest = dates_after(Recurrence::Yearly, start.day as int, next, until);
            assert(dates =~= seq![next] + rest);
            assert forall|i: int| 0 <= i < dates.len() implies #[trigger] dates[i] == yearly_date(
                start,
                k + 1 + i,
            ) by {
                if i > 0 {
                    assert(dates[i] == rest[i - 1]);
                }
            }
        }
    }
}

/// A yearly series has exactly one occurrence in each year after the base
/// event's own, on the base event's month and day or, where that year's month
/// has no such day, on the month's last day. No year is left out up to the
/// bound, and none lies in the base event's own year.
pub proof fn lemma_yearly_expansion(base: EventView, until: Date)
    requires
        base.is_valid(),
        until.is_valid(),
        base.recurrence == Recurrence::Yearly,
    ensures
        forall|i: int|
            0 <= i < expansion(base, until).len() ==> (#[trigger] expansion(
                base,
                until,
            )[i]).start_date == yearly_date(base.start_date, i + 1),
        base.start_date.year + expansion(base, until).len() <= MAX_YEAR,
        base.start_date.year + expansion(base, until).len() == MAX_YEAR || until.before(
            yearly_date(base.start_date, expansion(base, until).len() as int + 1),
        ),
{
    let start = base.start_date;
    assert(yearly_date(start, 0) == start);
    lemma_yearly_dates_from(start, 0, until);
    let dates = dates_after(Recurrence::Yearly, start.day as int, start, until);
    assert forall|i: int| 0 <= i < expansion(base, until).len() implies (#[trigger] expansion(
        base,
        until,
    )[i]).start_date == yearly_date(start, i + 1) by {
        assert(dates[i] == yearly_date(start, 0 + 1 + i));
    }
}

/// The occurrences of a valid base event are valid events: their days, and
/// their ends where they have one, are days that exist.
pub proof fn lemma_expansion_valid(base: EventView, until: Date, i: int)
    requires
        base.is_valid(),
        until.is_valid(),
        span_fits(base, until),
        0 <= i < expansion(base, until).len(),
    ensures
        expansion(base, until)[i].is_valid(),
{
    lemma_expansion_ordered(base, until);
    lemma_expansion_keeps_span(base, until, i);
    let dates = dates_after(base.recurrence, base.start_date.day as int, base.start_date, until);
    assert(expansion(base, until)[i] == occurrence_on(base, dates[i]));
}

/// The date that follows `current` in a series, or `None` where the series
/// ends.
pub fn next_occurrence_date(recurrence: Recurrence, anchor_day: u32, current: Date) -> (next:
    Option<Date>)
    requires
        current.is_valid(),
        1 <= anchor_day <= 31,
    ensures
        next == step_after(recurrence, anchor_day as int, current),
        next matches Some(date) ==> date.is_valid() && current.day_number() < date.day_number(),
{
    proof {
        lemma_step_after(recurrence, anchor_day as int, current);
        lemma_day_number_bounds(current);
    }
    match recurrence {
        Recurrence::Never => None,
        Recurrence::Daily => {
            let moved = current.checked_add_days(1);
            proof {
                if let Some(date) = moved {
                    lemma_plus_days(current, 1, date);
                }
            }
            moved
        },
        Recurrence::Weekly => {
            let moved = current.checked_add_days(7);
            proof {
                if let Some(date) = moved {
                    lemma_plus_days(current, 7, date);
                }
            }
            moved
        },
        Recurrence::Monthly => {
            if current.month < 12 {
                let month: u32 = current.month + 1;
                Some(Date { year: current.year, month, day: clamp_day(current.year, month, anchor_day) })
            } else {
                None
            }
        },
        Recurrence::Yearly => {
            if current.year < MAX_YEAR {
                let year: i32 = current.year + 1;
                Some(Date { year, month: current.month, day: clamp_day(year, current.month, anchor_day) })
            } else {
                None
            }
        },
    }
}

impl CalendarEvent {
    /// Whether the end of every occurrence up to `until` is a date that can
    /// be held.
    pub fn spans_until(&self, until: Date) -> (fits: bool)
        requires
            self@.is_valid(),
            until.is_valid(),
        ensures
            fits == span_fits(self@, until),
    {
        match self.end_date {
            Some(end) => {
                let span: i64 = end.days_since(self.start_date);
                proof {
                    lemma_day_number_bounds(until);
                    lemma_day_number_bounds(end);
                    lemma_day_number_bounds(self.start_date);
                }
                span <= 0 || until.checked_add_days(span).is_some()
            },
            None => true,
        }
    }
}

/// The occurrence of `base_event` on the day `on`.
fn occurrence_of(base_event: &CalendarEvent, on: Date) -> (occurrence: CalendarEvent)
    requires
        base_event@.is_valid(),
        on.is_valid(),
        base_event.start_date.day_number() <= on.day_number(),
        span_fits(base_event@, on),
    ensures
        occurrence@ == occurrence_on(base_event@, on),
        occurrence@.is_valid(),
{
    let end_date = match base_event.end_date {
        Some(end) => {
            let span: i64 = end.days_since(base_event.start_date);
            let moved = on.checked_add_days(span);
            proof {
                lemma_day_number_bounds(end);
                lemma_plus_days(on, span as int, moved.unwrap());
            }
            moved
        },
        None => None,
    };
    CalendarEvent {
        id: base_event.id.clone(),
        date: on,
        time: base_event.time,
        title: base_event.title.clone(),
        description: base_event.description.clone(),
        recurrence: Recurrence::Never,
        is_recurring_instance: true,
        base_date: Some(base_event.start_date),
        start_date: on,
        end_date,
        start_time: base_event.start_time,
        end_time: base_event.end_time,
        is_all_day: base_event.is_all_day,
    }
}

/// The occurrences of a recurring base event after its own day, up to and
/// including `until`, in order of date. An event that does not repeat has
/// none.
///
/// A daily series steps by one day and a weekly one by seven. A monthly
/// series steps to the base event's day of the month in the next month, and a
/// yearly one to the same month and day of the next year; where that month is
/// too short, the occurrence falls on its last day, and later steps aim at
/// the base event's day again. A monthly series does not pass from December
/// into the next year: it ends with the December of the year it reached.
pub fn generate_recurring_instances(base_event: &CalendarEvent, until: Date) -> (instances: Vec<
    CalendarEvent,
>)
    requires
        base_event@.is_valid(),
        until.is_valid(),
        base_event.recurrence != Recurrence::Never ==> span_fits(base_event@, until),
    ensures
        views(instances@) == expansion(base_event@, until),
{
    let mut instances: Vec<CalendarEvent> = Vec::new();
    if base_event.recurrence == Recurrence::Never {
        assert(views(instances@) =~= expansion(base_event@, until));
        return instances;
    }
    let mut current: Date = base_event.start_date;
    let recurrence = base_event.recurrence;
    let anchor_day: u32 = base_event.start_date.day;
    let ghost base = base_event@;
    let ghost all = dates_after(recurrence, anchor_day as int, base.start_date, until);
    let ghost done: Seq<Date> = Seq::empty();
    assert(views(instances@) =~= done.map_values(|on: Date| occurrence_on(base, on)));
    loop
        invariant
            base == base_event@,
            base.is_valid(),
            until.is_valid(),
            span_fits(base, until),
            recurrence == base.recurrence,
            anchor_day == base.start_date.day,
            current.is_valid(),
            base.start_date.day_number() <= current.day_number(),
            all == dates_after(recurrence, anchor_day as int, base.start_date, until),
            all == done + dates_after(recurrence, anchor_day as int, current, until),
            views(instances@) == done.map_values(|on: Date| occurrence_on(base, on)),
        decreases until.day_number() - current.day_number(),
    {
        let next = match next_occurrence_date(recurrence, anchor_day, current) {
            Some(next) => next,
            None => {
                assert(all == done);
                return instances;
            },
        };
        proof {
            lemma_day_number_ordered(next, until);
        }
        if !next.is_on_or_before(until) {
            assert(all == done);
            return instances;
        }
        let occurrence = occurrence_of(base_event, next);
        proof {
            let rest = dates_after(recurrence, anchor_day as int, next, until);
            assert(done + (seq![next] + rest) == done.push(next) + rest);
            let project = |on: Date| occurrence_on(base, on);
            assert(views(instances@.push(occurrence)) =~= views(instances@).push(occurrence@));
            assert(done.push(next).map_values(project) =~= done.map_values(project).push(
                project(next),
            ));
            done = done.push(next);
        }
        instances.push(occurrence);
        current = next;
    }
}

/// The characters of a title that a file name keeps: letters, digits and
/// underscores, and an underscore for each space.
pub open spec fn kept_chars(title: Seq<char>) -> Seq<char>
    decreases title.len(),
{
    if title.len() == 0 {
        title
    } else {
        let c = if title.last() == ' ' {
            '_'
        } else {
            title.last()
        };
        if alphanumeric(c) || c == '_' {
            kept_chars(title.drop_last()).push(c)
        } else {
            kept_chars(title.drop_last())
        }
    }
}

/// The file name stem made of a title's kept characters: without underscores
/// at either end, with each run of underscores reduced to one, cut to the
/// longest prefix of at most 100 bytes, and `untitled` where nothing is left.
pub open spec fn tidied(kept: Seq<char>) -> Seq<char> {
    let stem = limited(collapsed(without_trailing(without_leading(kept, '_'), '_'), '_'), 100);
    if stem.len() == 0 {
        "untitled"@
    } else {
        stem
    }
}

/// The characters of a title that a file name keeps.
fn keep_title_chars(title: &Vec<char>) -> (kept: Vec<char>)
    ensures
        kept@ == kept_chars(title@),
{
    let mut kept: Vec<char> = Vec::new();
    let mut i: usize = 0;
    assert(title@.take(0) =~= Seq::<char>::empty());
    while i < title.len()
        invariant
            i <= title.len(),
            kept@ == kept_chars(title@.take(i as int)),
        decreases title.len() - i,
    {
        assert(title@.take(i + 1).drop_last() == title@.take(i as int));
        assert(title@.take(i + 1).last() == title@[i as int]);
        let c: char = if title[i] == ' ' {
            '_'
        } else {
            title[i]
        };
        if c.is_alphanumeric() || c == '_' {
            kept.push(c);
        }
        i += 1;
    }
    assert(title@.take(title.len() as int) == title@);
    kept
}

/// The file name stem made of a title's kept characters.
pub fn tidy_file_stem(kept: &Vec<char>) -> (stem: Vec<char>)
    ensures
        stem@ == tidied(kept@),
{
    let inner = strip_char(kept, '_');
    let short = collapse_runs(&inner, '_');
    let stem = limit_bytes(&short, 100);
    if stem.len() == 0 {
        chars_of("untitled")
    } else {
        stem
    }
}

/// The stem of the file that an event with this title is stored in. Spaces
/// become underscores; characters other than letters, digits and underscores
/// are left out; underscores at either end go, and runs of them shrink to
/// one; the stem is cut to at most 100 bytes, and is `untitled` where nothing
/// is left.
pub fn sanitize_title_for_filename(title: &str) -> (stem: String)
    ensures
        stem@ == tidied(kept_chars(title@)),
{
    let chars = chars_of(title);
    let kept = keep_title_chars(&chars);
    let stem = tidy_file_stem(&kept);
    string_of(&stem)
}

/// Whether an event is over before the day `cutoff`: it does not repeat, and
/// its end, or its start where it has no end, lies before that day.
pub open spec fn finished_before(event: EventView, cutoff: Date) -> bool {
    event.recurrence == Recurrence::Never && (match event.end_date {
        Some(end) => end,
        None => event.start_date,
    }).before(cutoff)
}

/// Whether an event is over before the day `cutoff`. A recurring event never
/// is.
pub fn is_finished_before(event: &CalendarEvent, cutoff: Date) -> (finished: bool)
    ensures
        finished == finished_before(event@, cutoff),
{
    if event.recurrence != Recurrence::Never {
        return false;
    }
    let end_date = match event.end_date {
        Some(end) => end,
        None => event.start_date,
    };
    end_date.is_before(cutoff)
}

/// The test for the events that a cleanup removes: base events that are over
/// before `cutoff`.
pub open spec fn outdated(cutoff: Date) -> spec_fn(EventView) -> bool {
    |event: EventView| !event.is_recurring_instance && finished_before(event, cutoff)
}

/// The events that a cleanup with the day `cutoff` removes, in their order.
pub fn events_to_clean(events: &Vec<CalendarEvent>, cutoff: Date) -> (old: Vec<CalendarEvent>)
    ensures
        views(old@) == views(events@).filter(outdated(cutoff)),
{
    let mut old: Vec<CalendarEvent> = Vec::new();
    let mut i: usize = 0;
    let ghost all = views(events@);
    proof {
        reveal(Seq::filter);
        assert(all.take(0) =~= Seq::<EventView>::empty());
        assert(views(old@) =~= Seq::<EventView>::empty());
        assert(Seq::<EventView>::empty().filter(outdated(cutoff)) =~= Seq::<EventView>::empty());
    }
    while i < events.len()
        invariant
            i <= events.len(),
            all == views(events@),
            views(old@) == all.take(i as int).filter(outdated(cutoff)),
        decreases events.len() - i,
    {
        proof {
            assert(all.take(i + 1) =~= all.take(i as int).push(events@[i as int]@));
            all.take(i as int).lemma_filter_push(events@[i as int]@, outdated(cutoff));
        }
        if !events[i].is_recurring_instance && is_finished_before(&events[i], cutoff) {
            old.push(events[i].clone());
            assert(views(old@) =~= all.take(i as int).filter(outdated(cutoff)).push(
                events@[i as int]@,
            ));
        }
        i += 1;
    }
    assert(all.take(events.len() as int) =~= all);
    old
}

/// The day `months` months before `date`: the same day of that month, or the
/// month's last day where it is shorter; `None` where that lies before the
/// first date.
pub open spec fn months_before(date: Date, months: int) -> Option<Date> {
    let index = date.year * 12 + date.month - 1 - months;
    let year = index / 12;
    let month = index % 12 + 1;
    let day = crate::calendar::clamped_day(year, month, date.day as int);
    if valid_ymd(year, month, day) {
        Some(Date { year: year as i32, month: month as u32, day: day as u32 })
    } else {
        None
    }
}

/// Calls chrono's `NaiveDate::checked_sub_months`. The contract claims what
/// chrono documents: the month is counted back through the years, the day
/// stays unless the month reached is shorter, in which case it is that
/// month's last day, and the result is `None` where the date is out of
/// range.
#[verifier::external_body]
fn naive_months_before(date: Date, months: u32) -> (earlier: Option<Date>)
    requires
        date.is_valid(),
    ensures
        earlier == months_before(date, months as int),
{
    let start = NaiveDate::from_ymd_opt(date.year, date.month, date.day)?;
    let found = start.checked_sub_months(Months::new(months))?;
    Some(Date { year: found.year(), month: found.month(), day: found.day() })
}

/// The number of months that an event stays after it is over before a
/// cleanup removes it.
pub const KEEP_MONTHS: u32 = 2;

/// The day before which an event must be over for a cleanup on the day
/// `today` to remove it: `KEEP_MONTHS` months before `today`.
pub fn cleanup_cutoff(today: Date) -> (cutoff: Option<Date>)
    requires
        today.is_valid(),
    ensures
        cutoff == months_before(today, KEEP_MONTHS as int),
{
    naive_months_before(today, KEEP_MONTHS)
}

/// A line without the carriage return at its end, if it has one.
pub open spec fn without_return(line: Seq<char>) -> Seq<char> {
    if line.len() > 0 && line.last() == '\r' {
        line.drop_last()
    } else {
        line
    }
}

/// The lines of a text. A line ends with a line feed, or with a carriage
/// return and a line feed; neither belongs to the line. What follows the last
/// line feed is a line too, unless it is empty.
pub open spec fn lines_of(text: Seq<char>) -> Seq<Seq<char>> {
    let parts = fields(text, '\n');
    Seq::new(
        if parts.last().len() == 0 {
            (parts.len() - 1) as nat
        } else {
            parts.len()
        },
        |i: int|
            if i < parts.len() - 1 {
                without_return(parts[i])
            } else {
                parts[i]
            },
    )
}

/// The lines of a text.
pub fn split_lines(text: &Vec<char>) -> (lines: Vec<Vec<char>>)
    ensures
        texts(lines@) == lines_of(text@),
{
    let parts = split(text, '\n');
    assert(texts(parts@).len() == parts@.len());
    proof {
        crate::text::lemma_fields_nonempty(text@, '\n');
    }
    let mut lines: Vec<Vec<char>> = Vec::new();
    let mut i: usize = 0;
    let count: usize = if parts[parts.len() - 1].len() == 0 {
        parts.len() - 1
    } else {
        parts.len()
    };
    assert(texts(parts@)[parts@.len() - 1] == parts@[parts@.len() - 1]@);
    while i < count
        invariant
            i <= count <= parts.len(),
            lines@.len() == i,
            forall|k: int| 0 <= k < i ==> (#[trigger] lines@[k])@ == lines_of(text@)[k],
            lines_of(text@).len() == count,
            texts(parts@) == fields(text@, '\n'),
        decreases count - i,
    {
        let part = &parts[i];
        assert(texts(parts@)[i as int] == part@);
        let line = if i < parts.len() - 1 && part.len() > 0 && part[part.len() - 1] == '\r' {
            slice_of(part, 0, part.len() - 1)
        } else {
            slice_of(part, 0, part.len())
        };
        proof {
            assert(part@.subrange(0, part@.len() as int) == part@);
            if part@.len() > 0 {
                assert(part@.subrange(0, part@.len() - 1) == part@.drop_last());
            }
        }
        lines.push(line);
        i += 1;
    }
    assert(texts(lines@) =~= lines_of(text@));
    lines
}

/// What follows `prefix` in `line`, where the line begins with it.
pub open spec fn after_prefix(line: Seq<char>, prefix: Seq<char>) -> Option<Seq<char>> {
    if prefix.is_prefix_of(line) {
        Some(line.skip(prefix.len() as int))
    } else {
        None
    }
}

/// What follows `prefix` in `line`, where the line begins with it.
pub fn strip_prefix(line: &Vec<char>, prefix: &str) -> (rest: Option<Vec<char>>)
    ensures
        rest matches Some(found) ==> after_prefix(line@, prefix@) == Some(found@),
        rest is None ==> after_prefix(line@, prefix@) is None,
{
    let start = chars_of(prefix);
    if starts_with(line, &start) {
        let found = slice_of(line, start.len(), line.len());
        assert(found@ =~= line@.skip(start@.len() as int));
        Some(found)
    } else {
        None
    }
}

/// The text between two values of a range.
pub open spec fn range_mark() -> Seq<char> {
    " to "@
}

/// The first value of a range text: what stands before the first mark.
pub open spec fn range_first(text: Seq<char>) -> Seq<char> {
    text.take(first_occurrence(text, range_mark()))
}

/// The second value of a range text: what stands between the first mark and
/// the next, or the end.
pub open spec fn range_second(text: Seq<char>) -> Seq<char> {
    let rest = text.skip(first_occurrence(text, range_mark()) + range_mark().len());
    rest.take(first_occurrence(rest, range_mark()))
}

/// Whether a text is a range: it holds the mark.
pub open spec fn is_range(text: Seq<char>) -> bool {
    0 <= first_occurrence(text, range_mark()) < text.len()
}

/// The two values of a range text, or `None` where the text is no range.
pub fn split_range(text: &Vec<char>) -> (parts: Option<(Vec<char>, Vec<char>)>)
    ensures
        parts is Some <==> is_range(text@),
        parts matches Some(pair) ==> pair.0@ == range_first(text@) && pair.1@ == range_second(
            text@,
        ),
{
    let mark = chars_of(" to ");
    proof {
        reveal_strlit(" to ");
    }
    assert(text@.skip(0) == text@);
    let at: usize = find_text_from(text, 0, &mark);
    if at >= text.len() {
        return None;
    }
    proof {
        lemma_first_occurrence(text@, mark@);
    }
    let first = slice_of(text, 0, at);
    let from: usize = at + 4;
    let next: usize = find_text_from(text, from, &mark);
    let second = slice_of(text, from, next);
    assert(second@ =~= text@.skip(from as int).take(next - from));
    Some((first, second))
}

/// Where `first_occurrence` points, the needle stands, unless it points at
/// the end.
pub proof fn lemma_first_occurrence(text: Seq<char>, needle: Seq<char>)
    ensures
        0 <= first_occurrence(text, needle) <= text.len(),
        first_occurrence(text, needle) < text.len() ==> occurs_at(
            text,
            needle,
            first_occurrence(text, needle),
        ),
    decreases text.len(),
{
    if text.len() == 0 || occurs_at(text, needle, 0) {
    } else {
        let rest = text.drop_first();
        lemma_first_occurrence(rest, needle);
        let at = first_occurrence(rest, needle);
        if at < rest.len() {
            assert(text.subrange(at + 1, at + 1 + needle.len()) =~= rest.subrange(
                at,
                at + needle.len(),
            ));
        }
    }
}

/// The date that chrono reads from a text in the form `%Y-%m-%d`, if it
/// reads one.
pub uninterp spec fn iso_date_of(text: Seq<char>) -> Option<Date>;

/// Calls chrono's `NaiveDate::parse_from_str` with the format `%Y-%m-%d` and
/// copies year, month and day out. The contract claims that the outcome
/// depends on the text alone, and that a date read is a date that exists.
#[verifier::external_body]
fn parse_iso_date(text: &str) -> (date: Option<Date>)
    ensures
        date == iso_date_of(text@),
        date matches Some(found) ==> found.is_valid(),
{
    match NaiveDate::parse_from_str(text, "%Y-%m-%d") {
        Ok(found) => Some(Date { year: found.year(), month: found.month(), day: found.day() }),
        Err(_) => None,
    }
}

/// What the lines of an event file have said so far.
pub struct FileFields {
    pub title: Vec<char>,
    pub start_date: Option<Date>,
    pub end_date: Option<Date>,
    pub start_time: Option<Time>,
    pub end_time: Option<Time>,
    pub description: Vec<char>,
    pub recurrence: Recurrence,
}

/// What the lines of an event file have said, with texts as characters.
#[verifier::ext_equal]
pub struct FileFieldsView {
    pub title: Seq<char>,
    pub start_date: Option<Date>,
    pub end_date: Option<Date>,
    pub start_time: Option<Time>,
    pub end_time: Option<Time>,
    pub description: Seq<char>,
    pub recurrence: Recurrence,
}

impl View for FileFields {
    type V = FileFieldsView;

    open spec fn view(&self) -> FileFieldsView {
        FileFieldsView {
            title: self.title@,
            start_date: self.start_date,
            end_date: self.end_date,
            start_time: self.start_time,
            end_time: self.end_time,
            description: self.description@,
            recurrence: self.recurrence,
        }
    }
}

impl FileFieldsView {
    /// The days and times that were read are days that exist and times of the
    /// day.
    pub open spec fn is_valid(self) -> bool {
        &&& self.start_date matches Some(date) ==> date.is_valid()
        &&& self.end_date matches Some(date) ==> date.is_valid()
        &&& self.start_time matches Some(time) ==> time.is_valid()
        &&& self.end_time matches Some(time) ==> time.is_valid()
    }
}

/// What an event file says before its first line: nothing.
pub open spec fn no_fields() -> FileFieldsView {
    FileFieldsView {
        title: Seq::empty(),
        start_date: None,
        end_date: None,
        start_time: None,
        end_time: None,
        description: Seq::empty(),
        recurrence: Recurrence::Never,
    }
}

/// What is known after one more line. A line that begins with one of the
/// five labels sets what the label names, from the rest of the line without
/// white space around it; any other line says nothing. A date or time that
/// holds the range mark sets start and end, each as far as it can be read;
/// one without it sets the start.
pub open spec fn line_applied(known: FileFieldsView, line: Seq<char>) -> FileFieldsView {
    if after_prefix(line, "# Event: "@) is Some {
        FileFieldsView { title: trimmed(after_prefix(line, "# Event: "@)->0), ..known }
    } else if after_prefix(line, "- **Date**: "@) is Some {
        let value = trimmed(after_prefix(line, "- **Date**: "@)->0);
        if is_range(value) {
            FileFieldsView {
                start_date: iso_date_of(range_first(value)),
                end_date: iso_date_of(range_second(value)),
                ..known
            }
        } else {
            FileFieldsView { start_date: iso_date_of(value), ..known }
        }
    } else if after_prefix(line, "- **Time**: "@) is Some {
        let value = trimmed(after_prefix(line, "- **Time**: "@)->0);
        if is_range(value) {
            FileFieldsView {
                start_time: clock_time_of(range_first(value)),
                end_time: clock_time_of(range_second(value)),
                ..known
            }
        } else {
            FileFieldsView { start_time: clock_time_of(value), ..known }
        }
    } else if after_prefix(line, "- **Description**: "@) is Some {
        FileFieldsView {
            description: trimmed(after_prefix(line, "- **Description**: "@)->0),
            ..known
        }
    } else if after_prefix(line, "- **Recurrence**: "@) is Some {
        FileFieldsView {
            recurrence: recurrence_at(
                recurrence_index(trimmed(after_prefix(line, "- **Recurrence**: "@)->0)),
            ),
            ..known
        }
    } else {
        known
    }
}

/// What is known after the lines of an event file, read in order.
pub open spec fn fields_of_lines(lines: Seq<Seq<char>>) -> FileFieldsView
    decreases lines.len(),
{
    if lines.len() == 0 {
        no_fields()
    } else {
        line_applied(fields_of_lines(lines.drop_last()), lines.last())
    }
}

/// The event that an event file describes, with `id` as its identifier; none
/// where the file names no start day. An event without time lasts all day
/// and starts at midnight; one without end day ends on its start day.
pub open spec fn event_of_fields(known: FileFieldsView, id: Seq<char>) -> Option<EventView> {
    match known.start_date {
        Some(start) => {
            let time = match known.start_time {
                Some(time) => time,
                None => Time { hour: 0, minute: 0, second: 0 },
            };
            Some(
                EventView {
                    id,
                    date: start,
                    time,
                    title: known.title,
                    description: known.description,
                    recurrence: known.recurrence,
                    is_recurring_instance: false,
                    base_date: None,
                    start_date: start,
                    end_date: match known.end_date {
                        Some(end) => Some(end),
                        None => Some(start),
                    },
                    start_time: time,
                    end_time: known.end_time,
                    is_all_day: known.start_time is None,
                },
            )
        },
        None => None,
    }
}

/// Takes one more line of an event file in.
fn apply_line(known: &mut FileFields, line: &Vec<char>)
    ensures
        final(known)@ == line_applied(old(known)@, line@),
        old(known)@.is_valid() ==> final(known)@.is_valid(),
{
    if let Some(rest) = strip_prefix(line, "# Event: ") {
        known.title = trim(&rest);
    } else if let Some(rest) = strip_prefix(line, "- **Date**: ") {
        let value = trim(&rest);
        match split_range(&value) {
            Some((first, second)) => {
                known.start_date = parse_iso_date(string_of(&first).as_str());
                known.end_date = parse_iso_date(string_of(&second).as_str());
            },
            None => {
                known.start_date = parse_iso_date(string_of(&value).as_str());
            },
        }
    } else if let Some(rest) = strip_prefix(line, "- **Time**: ") {
        let value = trim(&rest);
        match split_range(&value) {
            Some((first, second)) => {
                known.start_time = parse_clock_time(string_of(&first).as_str());
                known.end_time = parse_clock_time(string_of(&second).as_str());
            },
            None => {
                known.start_time = parse_clock_time(string_of(&value).as_str());
            },
        }
    } else if let Some(rest) = strip_prefix(line, "- **Description**: ") {
        known.description = trim(&rest);
    } else if let Some(rest) = strip_prefix(line, "- **Recurrence**: ") {
        known.recurrence = recurrence_from_index(recurrence_index_of(&trim(&rest)));
    }
}

/// The event that the fields of an event file describe, with `id` as its
/// identifier.
pub fn event_from_fields(known: &FileFields, id: String) -> (event: Option<CalendarEvent>)
    ensures
        event matches Some(found) ==> event_of_fields(known@, id@) == Some(found@),
        event is None ==> event_of_fields(known@, id@) is None,
        known@.is_valid() ==> (event matches Some(found) ==> found@.is_valid()
            && found.start_time.is_valid()),
{
    let start = match known.start_date {
        Some(start) => start,
        None => {
            return None;
        },
    };
    let time = match known.start_time {
        Some(time) => time,
        None => Time::midnight(),
    };
    Some(
        CalendarEvent {
            id,
            date: start,
            time,
            title: string_of(&known.title),
            description: string_of(&known.description),
            recurrence: known.recurrence,
            is_recurring_instance: false,
            base_date: None,
            start_date: start,
            end_date: match known.end_date {
                Some(end) => Some(end),
                None => Some(start),
            },
            start_time: time,
            end_time: known.end_time,
            is_all_day: known.start_time.is_none(),
        },
    )
}

/// What the lines of an event file say.
pub fn read_event_fields(content: &str) -> (known: FileFields)
    ensures
        known@ == fields_of_lines(lines_of(content@)),
        known@.is_valid(),
{
    let lines = split_lines(&chars_of(content));
    let mut known = FileFields {
        title: Vec::new(),
        start_date: None,
        end_date: None,
        start_time: None,
        end_time: None,
        description: Vec::new(),
        recurrence: Recurrence::Never,
    };
    let ghost all = texts(lines@);
    assert(known@ =~~= no_fields());
    assert(all.take(0) =~= Seq::<Seq<char>>::empty());
    let mut i: usize = 0;
    while i < lines.len()
        invariant
            i <= lines.len(),
            all == texts(lines@),
            known@ == fields_of_lines(all.take(i as int)),
            known@.is_valid(),
        decreases lines.len() - i,
    {
        assert(all.take(i + 1).drop_last() =~= all.take(i as int));
        assert(all.take(i + 1).last() == lines@[i as int]@);
        apply_line(&mut known, &lines[i]);
        i += 1;
    }
    assert(all.take(lines.len() as int) =~= all);
    known
}

/// The event that the text of an event file describes, with `id` as its
/// identifier; none where the file names no start day that can be read. The
/// days of an event that was read are days that exist.
pub fn parse_event_file(content: &str, id: String) -> (event: Option<CalendarEvent>)
    ensures
        event matches Some(found) ==> event_of_fields(
            fields_of_lines(lines_of(content@)),
            id@,
        ) == Some(found@),
        event is None ==> event_of_fields(fields_of_lines(lines_of(content@)), id@) is None,
        event matches Some(found) ==> found@.is_valid() && found.start_time.is_valid(),
{
    let known = read_event_fields(content);
    event_from_fields(&known, id)
}

/// Whether an event file stores an event with this title: one of its title
/// lines names it.
pub open spec fn names_title(lines: Seq<Seq<char>>, title: Seq<char>) -> bool {
    exists|i: int|
        0 <= i < lines.len() && after_prefix(#[trigger] lines[i], "# Event: "@) is Some
            && trimmed(after_prefix(lines[i], "# Event: "@)->0) == title
}

/// Whether the text of an event file stores an event with this title.
pub fn file_stores_title(content: &str, title: &str) -> (stores: bool)
    ensures
        stores == names_title(lines_of(content@), title@),
{
    let lines = split_lines(&chars_of(content));
    let wanted = chars_of(title);
    let mut i: usize = 0;
    while i < lines.len()
        invariant
            i <= lines.len(),
            wanted@ == title@,
            texts(lines@) == lines_of(content@),
            forall|k: int|
                0 <= k < i ==> !(after_prefix(#[trigger] texts(lines@)[k], "# Event: "@) is Some
                    && trimmed(after_prefix(texts(lines@)[k], "# Event: "@)->0) == title@),
        decreases lines.len() - i,
    {
        assert(texts(lines@)[i as int] == lines@[i as int]@);
        if let Some(rest) = strip_prefix(&lines[i], "# Event: ") {
            if crate::text::same_text(&trim(&rest), &wanted) {
                assert(after_prefix(lines_of(content@)[i as int], "# Event: "@) is Some);
                return true;
            }
        }
        i += 1;
    }
    false
}

/// Whether a file name is that of an event file: it ends with `.md`.
pub fn is_event_file_name(name: &str) -> (is_event_file: bool)
    ensures
        is_event_file == (name@.len() >= 3 && name@.skip(name@.len() - 3) == ".md"@),
{
    let chars = chars_of(name);
    let ending = chars_of(".md");
    proof {
        reveal_strlit(".md");
    }
    if chars.len() < 3 {
        return false;
    }
    let found = crate::text::matches_at(&chars, &ending, chars.len() - 3);
    assert(chars@.subrange(chars@.len() - 3, chars@.len() as int) =~= chars@.skip(
        chars@.len() - 3,
    ));
    found
}

/// The name of the file for an event with the file stem `stem`, at the given
/// attempt: `stem.md` at first, then `stem_1.md`, `stem_2.md` and so on, for
/// as long as a file of the name exists.
pub open spec fn file_name(stem: Seq<char>, attempt: nat) -> Seq<char> {
    if attempt == 0 {
        stem + ".md"@
    } else {
        stem + seq!['_'] + decimal_text(attempt) + ".md"@
    }
}

/// The name of the file for an event with the file stem `stem`, at the given
/// attempt.
pub fn file_name_for(stem: &str, attempt: u32) -> (name: String)
    ensures
        name@ == file_name(stem@, attempt as nat),
{
    let mut name = chars_of(stem);
    if attempt > 0 {
        name.push('_');
        push_decimal(&mut name, attempt);
    }
    push_all(&mut name, &chars_of(".md"));
    assert(name@ =~= file_name(stem@, attempt as nat));
    string_of(&name)
}

/// A year as event files write it: four digits for the years 0 to 9999, and
/// otherwise a sign and at least four digits.
pub open spec fn year_text(year: int) -> Seq<char> {
    let digits = decimal_text((if year < 0 {
        -year
    } else {
        year
    }) as nat);
    let padded = Seq::new(
        if digits.len() < 4 {
            (4 - digits.len()) as nat
        } else {
            0
        },
        |i: int| '0',
    ) + digits;
    if 0 <= year <= 9999 {
        padded
    } else if year > 9999 {
        seq!['+'] + digits
    } else {
        seq!['-'] + padded
    }
}

/// A date as event files write it: year, month and day, separated by `-`,
/// month and day with two digits.
pub open spec fn iso_date_text(date: Date) -> Seq<char> {
    year_text(date.year as int) + seq!['-'] + padded_two(date.month as nat) + seq!['-']
        + padded_two(date.day as nat)
}

/// A number of a thousand or more is written with four digits or more.
proof fn lemma_decimal_text_length(number: nat)
    ensures
        decimal_text(number).len() >= 1,
        number >= 10 ==> decimal_text(number).len() >= 2,
        number >= 100 ==> decimal_text(number).len() >= 3,
        number >= 1000 ==> decimal_text(number).len() >= 4,
    decreases number,
{
    if number >= 10 {
        lemma_decimal_text_length(number / 10);
    }
}

/// Appends a year as event files write it.
fn push_year(out: &mut Vec<char>, year: i32)
    ensures
        final(out)@ == old(out)@ + year_text(year as int),
{
    let size: u32 = if year < 0 {
        (-(year as i64)) as u32
    } else {
        year as u32
    };
    let mut digits: Vec<char> = Vec::new();
    push_decimal(&mut digits, size);
    assert(digits@ =~= decimal_text(size as nat));
    proof {
        lemma_decimal_text_length(size as nat);
    }
    let mut padded: Vec<char> = Vec::new();
    let wanted: usize = if digits.len() < 4 {
        4 - digits.len()
    } else {
        0
    };
    let mut i: usize = 0;
    while i < wanted
        invariant
            i <= wanted,
            padded@ == Seq::new(i as nat, |k: int| '0'),
        decreases wanted - i,
    {
        padded.push('0');
        i += 1;
        assert(padded@ =~= Seq::new(i as nat, |k: int| '0'));
    }
    push_all(&mut padded, &digits);
    if year > 9999 {
        out.push('+');
        push_all(out, &digits);
        assert(out@ =~= old(out)@ + (seq!['+'] + digits@));
    } else if year < 0 {
        out.push('-');
        push_all(out, &padded);
        assert(out@ =~= old(out)@ + (seq!['-'] + padded@));
    } else {
        push_all(out, &padded);
    }
}

/// A year as a heading shows it: its number, with a minus sign before a
/// negative one.
pub open spec fn year_number_text(year: int) -> Seq<char> {
    if year < 0 {
        seq!['-'] + decimal_text((-year) as nat)
    } else {
        decimal_text(year as nat)
    }
}

/// Appends a year as a heading shows it.
pub fn push_year_number(out: &mut Vec<char>, year: i32)
    ensures
        final(out)@ == old(out)@ + year_number_text(year as int),
{
    if year < 0 {
        out.push('-');
        push_decimal(out, (-(year as i64)) as u32);
        assert(out@ =~= old(out)@ + year_number_text(year as int));
    } else {
        push_decimal(out, year as u32);
    }
}

/// A date as event files write it.
pub fn render_iso_date(date: Date) -> (text: String)
    ensures
        text@ == iso_date_text(date),
{
    let mut out: Vec<char> = Vec::new();
    push_iso_date(&mut out, date);
    assert(out@ =~= iso_date_text(date));
    string_of(&out)
}

/// Appends a date as event files write it.
fn push_iso_date(out: &mut Vec<char>, date: Date)
    ensures
        final(out)@ == old(out)@ + iso_date_text(date),
{
    push_year(out, date.year);
    out.push('-');
    push_padded_two(out, date.month);
    out.push('-');
    push_padded_two(out, date.day);
    assert(out@ =~= old(out)@ + iso_date_text(date));
}

/// The date line of an event file: the start day, and the end day after the
/// range mark where the event ends on another day.
pub open spec fn date_line(event: EventView) -> Seq<char> {
    match event.end_date {
        Some(end) => if end != event.start_date {
            iso_date_text(event.start_date) + range_mark() + iso_date_text(end)
        } else {
            iso_date_text(event.start_date)
        },
        None => iso_date_text(event.start_date),
    }
}

/// The time line of an event file: `all-day`, or the start time, and the end
/// time after the range mark where the event has one.
pub open spec fn time_line(event: EventView) -> Seq<char> {
    if event.is_all_day {
        "all-day"@
    } else {
        match event.end_time {
            Some(end) => clock_text(event.start_time) + range_mark() + clock_text(end),
            None => clock_text(event.start_time),
        }
    }
}

/// The text of the file that stores an event.
pub open spec fn event_file_text(event: EventView) -> Seq<char> {
    "# Event: "@ + event.title + "\n\n- **Date**: "@ + date_line(event) + "\n- **Time**: "@
        + time_line(event) + "\n- **Description**: "@ + event.description
        + "\n- **Recurrence**: "@ + recurrence_name(event.recurrence) + "\n"@
}

/// The text of the file that stores an event.
pub fn render_event_file(event: &CalendarEvent) -> (content: String)
    ensures
        content@ == event_file_text(event@),
{
    let mark = chars_of(" to ");
    let mut out = chars_of("# Event: ");
    push_all(&mut out, &chars_of(event.title.as_str()));
    push_all(&mut out, &chars_of("\n\n- **Date**: "));
    let ghost dated = out@;
    push_iso_date(&mut out, event.start_date);
    match event.end_date {
        Some(end) => {
            if end != event.start_date {
                push_all(&mut out, &mark);
                push_iso_date(&mut out, end);
            }
        },
        None => {},
    }
    assert(out@ =~= dated + date_line(event@));
    push_all(&mut out, &chars_of("\n- **Time**: "));
    let ghost timed = out@;
    if event.is_all_day {
        push_all(&mut out, &chars_of("all-day"));
    } else {
        push_all(&mut out, &chars_of(crate::event_handling::format_clock(event.start_time).as_str()));
        match event.end_time {
            Some(end) => {
                push_all(&mut out, &mark);
                push_all(&mut out, &chars_of(crate::event_handling::format_clock(end).as_str()));
            },
            None => {},
        }
    }
    assert(out@ =~= timed + time_line(event@));
    push_all(&mut out, &chars_of("\n- **Description**: "));
    push_all(&mut out, &chars_of(event.description.as_str()));
    push_all(&mut out, &chars_of("\n- **Recurrence**: "));
    push_all(&mut out, &chars_of(recurrence_to_str(event.recurrence)));
    push_all(&mut out, &chars_of("\n"));
    assert(out@ =~= event_file_text(event@));
    string_of(&out)
}

} // verus!
