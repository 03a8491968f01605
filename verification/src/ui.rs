//! What the screen shows, as plain values: the cells and rows of a month of
//! the calendar, and the texts of the lists and dialogs.

use crate::app::{views, CalendarEvent, EventView, Recurrence};
use crate::calendar::{days_in_month, month_length, valid_ymd, weekday_of, Date};
use crate::event_handling::{clock_text, format_clock};
use crate::persistence::{iso_date_text, render_iso_date};
use crate::text::{chars_of, decimal_text, push_all, push_decimal, string_of};
use chrono::{Datelike, NaiveDate};
use vstd::prelude::*;

verus! {

/// The English name of a month; empty for a number outside 1..=12.
pub open spec fn month_title(month: int) -> Seq<char> {
    if month == 1 {
        "January"@
    } else if month == 2 {
        "February"@
    } else if month == 3 {
        "March"@
    } else if month == 4 {
        "April"@
    } else if month == 5 {
        "May"@
    } else if month == 6 {
        "June"@
    } else if month == 7 {
        "July"@
    } else if month == 8 {
        "August"@
    } else if month == 9 {
        "September"@
    } else if month == 10 {
        "October"@
    } else if month == 11 {
        "November"@
    } else if month == 12 {
        "December"@
    } else {
        Seq::empty()
    }
}

/// The English name of a month.
pub fn month_name(month: u32) -> (name: &'static str)
    ensures
        name@ == month_title(month as int),
{
    proof {
        reveal_strlit("");
    }
    if month == 1 {
        "January"
    } else if month == 2 {
        "February"
    } else if month == 3 {
        "March"
    } else if month == 4 {
        "April"
    } else if month == 5 {
        "May"
    } else if month == 6 {
        "June"
    } else if month == 7 {
        "July"
    } else if month == 8 {
        "August"
    } else if month == 9 {
        "September"
    } else if month == 10 {
        "October"
    } else if month == 11 {
        "November"
    } else if month == 12 {
        "December"
    } else {
        let name = "";
        assert(name@ =~= Seq::<char>::empty());
        name
    }
}

/// One cell of a month on screen: a day, or a blank before the first day
/// where `day` is 0.
#[derive(Clone, Copy, PartialEq, Eq, Debug, Structural)]
pub struct DayCell {
    /// The day of the month, or 0 for a blank.
    pub day: u32,
    /// Whether an event lies on the day.
    pub has_event: bool,
    /// The weekday, 0 for Monday through 6 for Sunday.
    pub weekday: u32,
    /// Whether the day is today.
    pub is_today: bool,
    /// Whether the day is the selected one.
    pub is_selected: bool,
}

/// What decides how a month is shown: the events, today, and the selected
/// day.
pub struct Showing {
    pub events: Seq<EventView>,
    pub today: Date,
    pub selected: Date,
}

/// Whether an event lies on `date`.
pub open spec fn has_event_on(events: Seq<EventView>, date: Date) -> bool {
    exists|i: int| 0 <= i < events.len() && (#[trigger] events[i]).date == date
}

/// The cell of a day.
pub open spec fn day_cell(showing: Showing, date: Date) -> DayCell {
    DayCell {
        day: date.day,
        has_event: has_event_on(showing.events, date),
        weekday: weekday_of(date.day_number()) as u32,
        is_today: date == showing.today,
        is_selected: date == showing.selected,
    }
}

/// A blank cell in the column of a weekday.
pub open spec fn blank_cell(weekday: int) -> DayCell {
    DayCell {
        day: 0,
        has_event: false,
        weekday: weekday as u32,
        is_today: false,
        is_selected: false,
    }
}

/// The number of blank cells before the first day of a month: the weekday of
/// that day, Monday being 0.
pub open spec fn leading_blanks(year: i32, month: u32) -> int {
    weekday_of(Date { year, month, day: 1 }.day_number())
}

/// The cells of a month, week after week from Monday: a blank for each
/// weekday before the first day, then the days.
pub open spec fn month_cells(showing: Showing, year: i32, month: u32) -> Seq<DayCell> {
    Seq::new(
        (leading_blanks(year, month) + month_length(year as int, month as int)) as nat,
        |i: int|
            if i < leading_blanks(year, month) {
                blank_cell(i)
            } else {
                day_cell(
                    showing,
                    Date { year, month, day: (i - leading_blanks(year, month) + 1) as u32 },
                )
            },
    )
}

/// Whether an event lies on `date`.
fn any_event_on(events: &Vec<CalendarEvent>, date: Date) -> (found: bool)
    ensures
        found == has_event_on(views(events@), date),
{
    let mut i: usize = 0;
    while i < events.len()
        invariant
            i <= events.len(),
            forall|k: int| 0 <= k < i ==> (#[trigger] views(events@)[k]).date != date,
        decreases events.len() - i,
    {
        assert(views(events@)[i as int] == events@[i as int]@);
        if events[i].date == date {
            return true;
        }
        i += 1;
    }
    false
}

/// The cells of `month` of `year`, week after week from Monday.
pub fn month_grid(
    events: &Vec<CalendarEvent>,
    today: Date,
    selected: Date,
    year: i32,
    month: u32,
) -> (cells: Vec<DayCell>)
    requires
        valid_ymd(year as int, month as int, 1),
    ensures
        cells@ == month_cells(Showing { events: views(events@), today, selected }, year, month),
{
    let ghost showing = Showing { events: views(events@), today, selected };
    let first = Date { year, month, day: 1 };
    let blanks: u32 = first.weekday();
    let last: u32 = days_in_month(year, month);
    let mut cells: Vec<DayCell> = Vec::new();
    let mut column: u32 = 0;
    while column < blanks
        invariant
            column <= blanks < 7,
            blanks == leading_blanks(year, month),
            cells@.len() == column,
            forall|k: int| 0 <= k < column ==> cells@[k] == month_cells(showing, year, month)[k],
            last == month_length(year as int, month as int),
        decreases blanks - column,
    {
        cells.push(
            DayCell {
                day: 0,
                has_event: false,
                weekday: column,
                is_today: false,
                is_selected: false,
            },
        );
        column += 1;
    }
    let mut day: u32 = 1;
    while day <= last
        invariant
            1 <= day <= last + 1,
            28 <= last <= 31,
            blanks < 7,
            valid_ymd(year as int, month as int, 1),
            blanks == leading_blanks(year, month),
            last == month_length(year as int, month as int),
            showing == (Showing { events: views(events@), today, selected }),
            cells@.len() == blanks + day - 1,
            forall|k: int|
                0 <= k < blanks + day - 1 ==> cells@[k] == month_cells(showing, year, month)[k],
        decreases last + 1 - day,
    {
        let date = Date { year, month, day };
        let cell = DayCell {
            day,
            has_event: any_event_on(events, date),
            weekday: date.weekday(),
            is_today: date == today,
            is_selected: date == selected,
        };
        assert(cell == day_cell(showing, date));
        cells.push(cell);
        day += 1;
    }
    assert(cells@ =~= month_cells(showing, year, month));
    cells
}

/// The text of a cell: nothing for a blank, and otherwise the day's number,
/// with a star where an event lies on the day.
pub open spec fn cell_text(cell: DayCell) -> Seq<char> {
    if cell.day == 0 {
        Seq::empty()
    } else if cell.has_event {
        decimal_text(cell.day as nat) + seq!['*']
    } else {
        decimal_text(cell.day as nat)
    }
}

/// The text of a cell.
pub fn cell_label(cell: &DayCell) -> (label: String)
    ensures
        label@ == cell_text(*cell),
{
    let mut label: Vec<char> = Vec::new();
    if cell.day != 0 {
        push_decimal(&mut label, cell.day);
        if cell.has_event {
            label.push('*');
        }
    }
    assert(label@ =~= cell_text(*cell));
    string_of(&label)
}

/// The number of the ISO week that a date lies in, as chrono counts it.
pub uninterp spec fn iso_week_of(date: Date) -> u32;

/// Calls chrono's `NaiveDate::iso_week` and `IsoWeek::week`. The contract
/// claims only that the number depends on the date alone.
#[verifier::external_body]
fn naive_iso_week(date: Date) -> (week: u32)
    requires
        date.is_valid(),
    ensures
        week == iso_week_of(date),
{
    NaiveDate::from_ymd_opt(date.year, date.month, date.day).unwrap().iso_week().week()
}

/// The number of rows that a month takes: one for every seven cells, and one
/// for what is left over.
pub open spec fn row_count(year: i32, month: u32) -> int {
    (leading_blanks(year, month) + month_length(year as int, month as int) + 6) / 7
}

/// The day of the month in the last cell of a row.
pub open spec fn last_day_of_row(year: i32, month: u32, row: int) -> int {
    let filled = row * 7 + 7 - leading_blanks(year, month);
    if filled <= month_length(year as int, month as int) {
        filled
    } else {
        month_length(year as int, month as int)
    }
}

/// The week numbers at the start of the rows of a month: for each row, the
/// ISO week of the day in its last cell.
pub open spec fn week_numbers(year: i32, month: u32) -> Seq<u32> {
    Seq::new(
        row_count(year, month) as nat,
        |row: int|
            iso_week_of(Date { year, month, day: last_day_of_row(year, month, row) as u32 }),
    )
}

/// The week numbers at the start of the rows of `month` of `year`.
pub fn row_weeks(year: i32, month: u32) -> (weeks: Vec<u32>)
    requires
        valid_ymd(year as int, month as int, 1),
    ensures
        weeks@ == week_numbers(year, month),
{
    let blanks: u32 = Date { year, month, day: 1 }.weekday();
    let last: u32 = days_in_month(year, month);
    let rows: u32 = (blanks + last + 6) / 7;
    let mut weeks: Vec<u32> = Vec::new();
    let mut row: u32 = 0;
    while row < rows
        invariant
            row <= rows,
            blanks < 7,
            28 <= last <= 31,
            rows == (blanks + last + 6) / 7,
            valid_ymd(year as int, month as int, 1),
            blanks == leading_blanks(year, month),
            last == month_length(year as int, month as int),
            weeks@.len() == row,
            forall|k: int| 0 <= k < row ==> weeks@[k] == week_numbers(year, month)[k],
        decreases rows - row,
    {
        let filled: u32 = row * 7 + 7 - blanks;
        let day: u32 = if filled <= last {
            filled
        } else {
            last
        };
        weeks.push(naive_iso_week(Date { year, month, day }));
        row += 1;
    }
    assert(weeks@ =~= week_numbers(year, month));
    weeks
}

/// The mark behind an entry that repeats or is an occurrence.
pub open spec fn recurring_mark(event: EventView) -> Seq<char> {
    if event.recurrence != Recurrence::Never || event.is_recurring_instance {
        " (R)"@
    } else {
        Seq::empty()
    }
}

/// The line of an event in the list of a day's events: its time and title,
/// its description where it has one, and the mark of a recurring event.
pub open spec fn event_line_text(event: EventView) -> Seq<char> {
    if event.description.len() == 0 {
        clock_text(event.time) + " - "@ + event.title + recurring_mark(event)
    } else {
        clock_text(event.time) + " - "@ + event.title + ": "@ + event.description
            + recurring_mark(event)
    }
}

/// The line of an event in the list of a day's events.
pub fn event_line(event: &CalendarEvent) -> (line: String)
    ensures
        line@ == event_line_text(event@),
{
    let mut line = chars_of(format_clock(event.time).as_str());
    push_all(&mut line, &chars_of(" - "));
    push_all(&mut line, &chars_of(event.title.as_str()));
    if event.description.as_str().unicode_len() != 0 {
        push_all(&mut line, &chars_of(": "));
        push_all(&mut line, &chars_of(event.description.as_str()));
    }
    if event.recurrence != Recurrence::Never || event.is_recurring_instance {
        push_all(&mut line, &chars_of(" (R)"));
    }
    assert(line@ =~= event_line_text(event@));
    string_of(&line)
}

/// The title of the list of a day's events.
pub fn events_title(date: Date) -> (title: String)
    ensures
        title@ == "Events on "@ + iso_date_text(date),
{
    let mut title = chars_of("Events on ");
    push_all(&mut title, &chars_of(render_iso_date(date).as_str()));
    string_of(&title)
}

/// The title of the event form.
pub fn form_title(is_editing: bool, date: Date) -> (title: String)
    ensures
        title@ == (if is_editing {
            "Edit Event for "@
        } else {
            "Add Event for "@
        }) + iso_date_text(date),
{
    let mut title = if is_editing {
        chars_of("Edit Event for ")
    } else {
        chars_of("Add Event for ")
    };
    push_all(&mut title, &chars_of(render_iso_date(date).as_str()));
    string_of(&title)
}

/// The title of a month on screen: its name and the year.
pub fn month_heading(year: i32, month: u32) -> (title: String)
    ensures
        title@ == month_title(month as int) + seq![' '] + crate::persistence::year_number_text(
            year as int,
        ),
{
    let mut title = chars_of(month_name(month));
    title.push(' ');
    crate::persistence::push_year_number(&mut title, year);
    string_of(&title)
}

/// The question that asks whether an event is to be deleted.
pub open spec fn confirmation_text(event: EventView) -> Seq<char> {
    "Delete event:\n\n  "@ + event.title + "\n  "@ + clock_text(event.time)
        + "\n\nPress 'y' to confirm, 'n' to cancel"@
}

/// The question that asks whether an event is to be deleted.
pub fn confirmation_message(event: &CalendarEvent) -> (message: String)
    ensures
        message@ == confirmation_text(event@),
{
    let mut message = chars_of("Delete event:\n\n  ");
    push_all(&mut message, &chars_of(event.title.as_str()));
    push_all(&mut message, &chars_of("\n  "));
    push_all(&mut message, &chars_of(format_clock(event.time).as_str()));
    push_all(&mut message, &chars_of("\n\nPress 'y' to confirm, 'n' to cancel"));
    assert(message@ =~= confirmation_text(event@));
    string_of(&message)
}

/// Where a dialog of `inner` cells begins so that it stands in the middle of
/// `outer` cells.
pub fn centered_origin(outer: u16, inner: u16) -> (origin: u16)
    requires
        inner <= outer,
    ensures
        origin == (outer - inner) / 2,
{
    (outer - inner) / 2
}

/// The width or height of the event form within `outer` cells: `wanted`, or
/// two less than there is where that is less.
pub fn dialog_extent(outer: u16, wanted: u16) -> (extent: u16)
    ensures
        extent == if wanted <= (if outer >= 2 {
            outer - 2
        } else {
            0
        }) {
            wanted as int
        } else if outer >= 2 {
            outer - 2
        } else {
            0
        },
{
    let room: u16 = if outer >= 2 {
        outer - 2
    } else {
        0
    };
    if wanted <= room {
        wanted
    } else {
        room
    }
}

} // verus!
