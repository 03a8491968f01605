//! Day/month text typed by the user: its validation against a reference
//! date, and the completions proposed while it is being typed.

use crate::calendar::{
    clamp_day, clamped_day, days_in_month, lemma_day_number_bounds, lemma_day_number_ordered,
    lemma_plus_days, month_length, valid_ymd, weekday_of, Date, MAX_YEAR,
};
use crate::text::{
    all_digits, chars_of, contains, fields, has_infix, lowercase_of, parse_u32, parsed_u32,
    push_all, push_two_digits, split, string_of, texts, trim, trimmed, two_digits,
};
use vstd::prelude::*;
use vstd::string::StringExecFns;

verus! {

/// Why a day/month text was not accepted.
#[derive(Clone, Copy, PartialEq, Eq, Debug, Structural)]
pub enum DateInputError {
    /// The text does not consist of two fields separated by one `/`.
    Format,
    /// The first field is not a number.
    Day,
    /// The second field is not a number.
    Month,
    /// The day is not within 1..=31.
    DayRange,
    /// The month is not within 1..=12.
    MonthRange,
    /// The month of the resolved year has no such day.
    NoSuchDate,
}

impl DateInputError {
    /// The message shown to the user.
    pub open spec fn message(self) -> Seq<char> {
        match self {
            DateInputError::Format => "Invalid format. Use DD/MM"@,
            DateInputError::Day => "Invalid day"@,
            DateInputError::Month => "Invalid month"@,
            DateInputError::DayRange => "Day must be between 1 and 31"@,
            DateInputError::MonthRange => "Month must be between 1 and 12"@,
            DateInputError::NoSuchDate => "Invalid date"@,
        }
    }

    /// The message shown to the user.
    pub fn to_message(self) -> (text: String)
        ensures
            text@ == self.message(),
    {
        match self {
            DateInputError::Format => String::from_str("Invalid format. Use DD/MM"),
            DateInputError::Day => String::from_str("Invalid day"),
            DateInputError::Month => String::from_str("Invalid month"),
            DateInputError::DayRange => String::from_str("Day must be between 1 and 31"),
            DateInputError::MonthRange => String::from_str("Month must be between 1 and 12"),
            DateInputError::NoSuchDate => String::from_str("Invalid date"),
        }
    }
}

/// The year that a day and month without a year are taken to lie in: the
/// reference date's year where they come after the reference date's own day
/// and month, and the year after it where they fall on or before it.
pub open spec fn resolved_year(reference: Date, month: int, day: int) -> int {
    if month < reference.month || (month == reference.month && day <= reference.day) {
        reference.year + 1
    } else {
        reference.year as int
    }
}

/// What a day/month text resolves to. The empty text stands for the reference
/// date itself. Any other text must be two numbers separated by one `/`, the
/// day within 1..=31 and the month within 1..=12, and names the next such day
/// after the reference date; it is refused where that month has no such day.
pub open spec fn day_month_date(text: Seq<char>, reference: Date) -> Result<Date, DateInputError> {
    if text.len() == 0 {
        Ok(reference)
    } else if fields(text, '/').len() != 2 {
        Err(DateInputError::Format)
    } else {
        match (parsed_u32(fields(text, '/')[0]), parsed_u32(fields(text, '/')[1])) {
            (None, _) => Err(DateInputError::Day),
            (Some(_), None) => Err(DateInputError::Month),
            (Some(day), Some(month)) => if day == 0 || day > 31 {
                Err(DateInputError::DayRange)
            } else if month == 0 || month > 12 {
                Err(DateInputError::MonthRange)
            } else if valid_ymd(
                resolved_year(reference, month as int, day as int),
                month as int,
                day as int,
            ) {
                Ok(
                    Date {
                        year: resolved_year(reference, month as int, day as int) as i32,
                        month,
                        day,
                    },
                )
            } else {
                Err(DateInputError::NoSuchDate)
            },
        }
    }
}

/// A day and month that were typed name the next such day after the
/// reference date: the date they resolve to lies after the reference date,
/// and no more than a year after it.
pub proof fn lemma_resolved_date_lies_ahead(text: Seq<char>, reference: Date)
    requires
        reference.is_valid(),
        text.len() > 0,
        day_month_date(text, reference) is Ok,
    ensures
        day_month_date(text, reference)->Ok_0.is_valid(),
        reference.before(day_month_date(text, reference)->Ok_0),
        day_month_date(text, reference)->Ok_0.day_number() - reference.day_number() <= 366,
{
    crate::calendar::lemma_days_before_month(reference.year as int);
    crate::calendar::lemma_days_before_month(reference.year + 1);
    crate::calendar::lemma_year_length(reference.year as int);
    crate::calendar::lemma_year_length(reference.year + 1);
}

/// Resolves a day/month text that has no white space around it.
pub fn check_day_month(text: &Vec<char>, reference: Date) -> (outcome: Result<
    Date,
    DateInputError,
>)
    requires
        reference.is_valid(),
    ensures
        outcome == day_month_date(text@, reference),
{
    if text.len() == 0 {
        return Ok(reference);
    }
    let parts = split(text, '/');
    assert(texts(parts@).len() == parts@.len());
    if parts.len() != 2 {
        return Err(DateInputError::Format);
    }
    assert(texts(parts@)[0] == parts@[0]@);
    assert(texts(parts@)[1] == parts@[1]@);
    let day: u32 = match parse_u32(&parts[0]) {
        Some(day) => day,
        None => {
            return Err(DateInputError::Day);
        },
    };
    let month: u32 = match parse_u32(&parts[1]) {
        Some(month) => month,
        None => {
            return Err(DateInputError::Month);
        },
    };
    if day == 0 || day > 31 {
        return Err(DateInputError::DayRange);
    }
    if month == 0 || month > 12 {
        return Err(DateInputError::MonthRange);
    }
    let mut year: i32 = reference.year;
    if month < reference.month || (month == reference.month && day <= reference.day) {
        year = year + 1;
    }
    match Date::from_ymd_opt(year, month, day) {
        Some(date) => Ok(date),
        None => Err(DateInputError::NoSuchDate),
    }
}

/// Resolves a day/month text that has no white space around it, with the
/// refusal as the message shown to the user.
pub fn validate_date_text(text: &Vec<char>, start_date: Date) -> (outcome: Result<Date, String>)
    requires
        start_date.is_valid(),
    ensures
        outcome matches Ok(date) ==> day_month_date(text@, start_date) == Ok::<
            Date,
            DateInputError,
        >(date),
        outcome matches Err(message) ==> (day_month_date(text@, start_date) matches Err(reason)
            && message@ == reason.message()),
{
    match check_day_month(text, start_date) {
        Ok(date) => Ok(date),
        Err(reason) => Err(reason.to_message()),
    }
}

/// Resolves the day/month text `input`, in the form `DD/MM`, against
/// `start_date`. White space around the text is ignored, and a text that is
/// empty or white space alone stands for `start_date` itself. The year is
/// inferred: a day and month on or before `start_date`'s own fall into the
/// year after it.
pub fn validate_date_input(input: &str, start_date: Date) -> (outcome: Result<Date, String>)
    requires
        start_date.is_valid(),
    ensures
        outcome matches Ok(date) ==> day_month_date(trimmed(input@), start_date) == Ok::<
            Date,
            DateInputError,
        >(date),
        outcome matches Err(message) ==> (day_month_date(trimmed(input@), start_date) matches Err(
            reason,
        ) && message@ == reason.message()),
        outcome is Ok <==> validator_accepts(input@, start_date),
{
    let chars = chars_of(input);
    let inner = trim(&chars);
    validate_date_text(&inner, start_date)
}

/// A date written as `DD/MM`.
pub open spec fn day_month_text(date: Date) -> Seq<char> {
    two_digits(date.day as int) + seq!['/'] + two_digits(date.month as int)
}

/// A suggestion's label: a name followed by the date in brackets.
pub open spec fn labelled(name: Seq<char>, date: Date) -> Seq<char> {
    name + seq![' ', '('] + day_month_text(date) + seq![')']
}

/// The month `steps` months after `month` of `year`, as year and month.
pub open spec fn month_after(year: int, month: int, steps: int) -> (int, int) {
    (year + (month - 1 + steps) / 12, (month - 1 + steps) % 12 + 1)
}

/// The last day of the month that `date` lies in.
pub open spec fn end_of_month(date: Date) -> Date {
    Date {
        year: date.year,
        month: date.month,
        day: month_length(date.year as int, date.month as int) as u32,
    }
}

/// The day of the next month with the same number as `date`'s, or the last
/// day of that month where it is shorter.
pub open spec fn same_day_next_month(date: Date) -> Date {
    let (year, month) = month_after(date.year as int, date.month as int, 1);
    Date { year: year as i32, month: month as u32, day: clamped_day(year, month, date.day as int) as u32 }
}

/// The first day of the month after the one that `date` lies in.
pub open spec fn first_of_next_month(date: Date) -> Date {
    let (year, month) = month_after(date.year as int, date.month as int, 1);
    Date { year: year as i32, month: month as u32, day: 1 }
}

/// The last day of the year that `date` lies in.
pub open spec fn end_of_year(date: Date) -> Date {
    Date { year: date.year, month: 12, day: 31 }
}

/// The number of days from `date` to the nearest later day that falls on the
/// weekday `target` (0 for Monday through 6 for Sunday): between 1 and 7.
pub open spec fn days_to_next_weekday(date: Date, target: int) -> int {
    (target - weekday_of(date.day_number()) + 6) % 7 + 1
}

/// Whether a typed text and an alias match loosely: one stands somewhere in
/// the other. This holds in particular where one begins with the other.
pub open spec fn fuzzy_match(lowered: Seq<char>, alias: Seq<char>) -> bool {
    has_infix(alias, lowered) || has_infix(lowered, alias)
}

/// Whether a typed text matches one of the aliases of a term.
pub open spec fn matches_any(lowered: Seq<char>, aliases: Seq<Seq<char>>) -> bool {
    exists|i: int| 0 <= i < aliases.len() && fuzzy_match(lowered, #[trigger] aliases[i])
}

/// Whether the validator accepts a text read against `reference`: the text
/// without the white space around it resolves to a date.
pub open spec fn validator_accepts(text: Seq<char>, reference: Date) -> bool {
    day_month_date(trimmed(text), reference) is Ok
}

/// Whether the validator accepts the text `DD/MM` of `date` when it is read
/// against `reference`.
pub open spec fn accepted(date: Date, reference: Date) -> bool {
    validator_accepts(day_month_text(date), reference)
}

/// The text `DD/MM` of a date holds no white space, so the validator reads it
/// as it stands.
pub proof fn lemma_date_text_is_read_as_written(date: Date, reference: Date)
    requires
        date.day < 100,
        date.month < 100,
    ensures
        trimmed(day_month_text(date)) == day_month_text(date),
        accepted(date, reference) == (day_month_date(day_month_text(date), reference) is Ok),
{
    let text = day_month_text(date);
    assert(text.len() == 5);
    assert(text[0] == crate::text::digit_char(date.day as int / 10));
    assert(text[4] == crate::text::digit_char(date.month as int % 10));
    crate::text::lemma_trimmed_unchanged(text);
}

/// The suggestion of one term for a typed text: its label with the target
/// date, marked as the validator judges that date's text, where the text
/// matches one of the term's aliases; nothing otherwise.
pub open spec fn term_suggestion(
    lowered: Seq<char>,
    name: Seq<char>,
    aliases: Seq<Seq<char>>,
    target: Date,
    reference: Date,
) -> Seq<(Seq<char>, bool)> {
    if matches_any(lowered, aliases) {
        seq![(labelled(name, target), accepted(target, reference))]
    } else {
        Seq::empty()
    }
}

/// The suggestions of the relative terms for a typed text, in the order of
/// the table: tomorrow, next week, end of month, next month, end of year,
/// same day, and the lengths 1 day, 1 week, 2 weeks and 1 month.
pub open spec fn term_suggestions(lowered: Seq<char>, reference: Date) -> Seq<(Seq<char>, bool)> {
    term_suggestion(
        lowered,
        "Tomorrow"@,
        seq!["tomorrow"@, "tom"@],
        reference.plus_days(1),
        reference,
    ) + term_suggestion(
        lowered,
        "Next week"@,
        seq!["next week"@, "next"@],
        reference.plus_days(7),
        reference,
    ) + term_suggestion(
        lowered,
        "End of month"@,
        seq!["end of month"@, "end"@, "eom"@],
        end_of_month(reference),
        reference,
    ) + term_suggestion(
        lowered,
        "Next month"@,
        seq!["next month"@],
        same_day_next_month(reference),
        reference,
    ) + term_suggestion(
        lowered,
        "End of year"@,
        seq!["end of year"@, "eoy"@],
        end_of_year(reference),
        reference,
    ) + term_suggestion(lowered, "Same day"@, seq!["same day"@, "today"@], reference, reference)
        + term_suggestion(lowered, "1 day"@, seq!["1 day"@], reference.plus_days(1), reference)
        + term_suggestion(lowered, "1 week"@, seq!["1 week"@], reference.plus_days(7), reference)
        + term_suggestion(lowered, "2 weeks"@, seq!["2 weeks"@], reference.plus_days(14), reference)
        + term_suggestion(
        lowered,
        "1 month"@,
        seq!["1 month"@],
        same_day_next_month(reference),
        reference,
    )
}

/// What is proposed before anything is typed: tomorrow, next week, end of
/// month, next month and same day, each with its date and marked valid.
pub open spec fn default_suggestions(reference: Date) -> Seq<(Seq<char>, bool)> {
    seq![
        (labelled("Tomorrow"@, reference.plus_days(1)), true),
        (labelled("Next week"@, reference.plus_days(7)), true),
        (labelled("End of month"@, end_of_month(reference)), true),
        (labelled("Next month"@, same_day_next_month(reference)), true),
        (labelled("Same day"@, reference), true),
    ]
}

/// One completion of a typed day number: that day, or the month's last day
/// where the month is shorter, in the month `steps` months after the anchor's;
/// nothing where the validator refuses its text.
pub open spec fn day_completion(day: int, steps: int, reference: Date, anchor: Date) -> Seq<
    (Seq<char>, bool),
> {
    let (year, month) = month_after(anchor.year as int, anchor.month as int, steps);
    let date = Date {
        year: year as i32,
        month: month as u32,
        day: clamped_day(year, month, day) as u32,
    };
    if accepted(date, reference) {
        seq![(day_month_text(date), true)]
    } else {
        Seq::empty()
    }
}

/// The months to skip before the first completion of a typed day number: one
/// where a single digit was typed and that day of the anchor's month lies
/// before the anchor date, none otherwise.
pub open spec fn first_completion_step(input: Seq<char>, day: int, anchor: Date) -> int {
    if input.len() == 1 && clamped_day(anchor.year as int, anchor.month as int, day)
        < anchor.day {
        1
    } else {
        0
    }
}

/// The completions of a text made of digits alone that writes a day number
/// within 1..=31: that day in three months in a row.
pub open spec fn digit_completions(input: Seq<char>, reference: Date, anchor: Date) -> Seq<
    (Seq<char>, bool),
> {
    match parsed_u32(input) {
        Some(day) => if all_digits(input) && 1 <= day <= 31 {
            let first = first_completion_step(input, day as int, anchor);
            day_completion(day as int, first, reference, anchor) + day_completion(
                day as int,
                first + 1,
                reference,
                anchor,
            ) + day_completion(day as int, first + 2, reference, anchor)
        } else {
            Seq::empty()
        },
        None => Seq::empty(),
    }
}

/// The lower-case names of the weekdays, Monday first, cut to three letters.
pub open spec fn weekday_abbreviation(weekday: int) -> Seq<char> {
    if weekday == 0 {
        "mon"@
    } else if weekday == 1 {
        "tue"@
    } else if weekday == 2 {
        "wed"@
    } else if weekday == 3 {
        "thu"@
    } else if weekday == 4 {
        "fri"@
    } else if weekday == 5 {
        "sat"@
    } else {
        "sun"@
    }
}

/// The names of the weekdays as labels show them, Monday first.
pub open spec fn weekday_label(weekday: int) -> Seq<char> {
    if weekday == 0 {
        "Next Monday"@
    } else if weekday == 1 {
        "Next Tuesday"@
    } else if weekday == 2 {
        "Next Wednesday"@
    } else if weekday == 3 {
        "Next Thursday"@
    } else if weekday == 4 {
        "Next Friday"@
    } else if weekday == 5 {
        "Next Saturday"@
    } else {
        "Next Sunday"@
    }
}

/// Whether a typed text names the weekday: it holds `next `, then the
/// weekday's name or at least its first three letters.
pub open spec fn names_weekday(lowered: Seq<char>, weekday: int) -> bool {
    has_infix(lowered, "next "@ + weekday_abbreviation(weekday))
}

/// The first weekday from `from` on, Monday being 0, that the typed text
/// names; 7 where it names none.
pub open spec fn named_weekday(lowered: Seq<char>, from: int) -> int
    decreases 7 - from,
{
    if from >= 7 {
        7
    } else if names_weekday(lowered, from) {
        from
    } else {
        named_weekday(lowered, from + 1)
    }
}

/// The suggestion for a named weekday: the nearest day after the reference
/// date that falls on it. At most one weekday is suggested.
pub open spec fn weekday_suggestions(lowered: Seq<char>, reference: Date) -> Seq<
    (Seq<char>, bool),
> {
    let weekday = named_weekday(lowered, 0);
    if weekday < 7 {
        let target = reference.plus_days(days_to_next_weekday(reference, weekday));
        seq![(labelled(weekday_label(weekday), target), accepted(target, reference))]
    } else {
        Seq::empty()
    }
}

/// The completion of a text that holds one `/` with nothing on one side of
/// it, or on both: the missing day is the reference date's, the missing
/// month is the reference date's, and what was typed stays as typed. The
/// completed text is marked as the validator judges it.
pub open spec fn partial_completion(input: Seq<char>, reference: Date) -> Seq<(Seq<char>, bool)> {
    if fields(input, '/').len() == 2 && (fields(input, '/')[0].len() == 0 || fields(
        input,
        '/',
    )[1].len() == 0) {
        let day = if fields(input, '/')[0].len() == 0 {
            two_digits(reference.day as int)
        } else {
            fields(input, '/')[0]
        };
        let month = if fields(input, '/')[1].len() == 0 {
            two_digits(reference.month as int)
        } else {
            fields(input, '/')[1]
        };
        let text = day + seq!['/'] + month;
        seq![(text, validator_accepts(text, reference))]
    } else {
        Seq::empty()
    }
}

/// The suggestions for the phrases `last day` and `first of next`, written
/// with or without their spaces, anywhere in the typed text.
pub open spec fn phrase_suggestions(lowered: Seq<char>, reference: Date) -> Seq<(Seq<char>, bool)> {
    (if has_infix(lowered, "last day"@) || has_infix(lowered, "lastday"@) {
        seq![
            (
                labelled("End of month"@, end_of_month(reference)),
                accepted(end_of_month(reference), reference),
            ),
        ]
    } else {
        Seq::empty()
    }) + (if has_infix(lowered, "first of next"@) || has_infix(lowered, "firstofnext"@) {
        seq![
            (
                labelled("First of next month"@, first_of_next_month(reference)),
                accepted(first_of_next_month(reference), reference),
            ),
        ]
    } else {
        Seq::empty()
    })
}

/// The completions proposed for a typed text, given the text as typed and in
/// lower case. Nothing typed gives the five default suggestions. Otherwise
/// the proposals are, in this order: completions of a day number, the
/// relative terms that match, a named weekday, a completed `DD/MM`, and the
/// phrases for the end of the month and the first of the next.
pub open spec fn suggestions(
    input: Seq<char>,
    lowered: Seq<char>,
    reference: Date,
    anchor: Date,
) -> Seq<(Seq<char>, bool)> {
    if input.len() == 0 {
        default_suggestions(reference)
    } else {
        digit_completions(input, reference, anchor) + term_suggestions(lowered, reference)
            + weekday_suggestions(lowered, reference) + partial_completion(input, reference)
            + phrase_suggestions(lowered, reference)
    }
}

/// Whether the mark of a suggestion is the validator's verdict on the date
/// text of its label: on the label itself where it is a bare day and month,
/// and on the date in brackets where the label names one.
pub open spec fn mark_is_the_validators(entry: (Seq<char>, bool), reference: Date) -> bool {
    ||| entry.1 == validator_accepts(entry.0, reference)
    ||| exists|name: Seq<char>, date: Date|
        entry.0 == #[trigger] labelled(name, date) && entry.1 == accepted(date, reference)
}

/// Whether every mark of a list of suggestions is the validator's verdict.
pub open spec fn marked_by_the_validator(list: Seq<(Seq<char>, bool)>, reference: Date) -> bool {
    forall|i: int| 0 <= i < list.len() ==> mark_is_the_validators(#[trigger] list[i], reference)
}

/// Two lists whose marks are the validator's make one such list.
proof fn lemma_marked_parts(
    first: Seq<(Seq<char>, bool)>,
    second: Seq<(Seq<char>, bool)>,
    reference: Date,
)
    requires
        marked_by_the_validator(first, reference),
        marked_by_the_validator(second, reference),
    ensures
        marked_by_the_validator(first + second, reference),
{
    assert forall|i: int| 0 <= i < (first + second).len() implies mark_is_the_validators(
        #[trigger] (first + second)[i],
        reference,
    ) by {
        if i < first.len() {
            assert((first + second)[i] == first[i]);
        } else {
            assert((first + second)[i] == second[i - first.len()]);
        }
    }
}

/// The mark of a term's suggestion is the validator's verdict.
proof fn lemma_term_marked(
    lowered: Seq<char>,
    name: Seq<char>,
    aliases: Seq<Seq<char>>,
    target: Date,
    reference: Date,
)
    ensures
        marked_by_the_validator(
            term_suggestion(lowered, name, aliases, target, reference),
            reference,
        ),
{
    let list = term_suggestion(lowered, name, aliases, target, reference);
    assert forall|i: int| 0 <= i < list.len() implies mark_is_the_validators(
        #[trigger] list[i],
        reference,
    ) by {
        assert(list[i].0 == labelled(name, target));
    }
}

/// The marks of the completions of a day number are the validator's
/// verdicts.
proof fn lemma_day_completion_marked(day: int, steps: int, reference: Date, anchor: Date)
    ensures
        marked_by_the_validator(day_completion(day, steps, reference, anchor), reference),
{
}

/// Every suggestion for a typed text carries the validator's verdict on its
/// date text as its mark: no label is marked otherwise. This is stated of
/// typed texts; the five suggestions for the empty text are marked valid as
/// they stand.
pub proof fn lemma_marks_are_the_validators(
    input: Seq<char>,
    lowered: Seq<char>,
    reference: Date,
    anchor: Date,
)
    requires
        input.len() > 0,
    ensures
        marked_by_the_validator(suggestions(input, lowered, reference, anchor), reference),
{
    let digits = digit_completions(input, reference, anchor);
    assert(marked_by_the_validator(digits, reference)) by {
        if let Some(day) = parsed_u32(input) {
            if all_digits(input) && 1 <= day <= 31 {
                let first = first_completion_step(input, day as int, anchor);
                lemma_day_completion_marked(day as int, first, reference, anchor);
                lemma_day_completion_marked(day as int, first + 1, reference, anchor);
                lemma_day_completion_marked(day as int, first + 2, reference, anchor);
                lemma_marked_parts(
                    day_completion(day as int, first, reference, anchor),
                    day_completion(day as int, first + 1, reference, anchor),
                    reference,
                );
                lemma_marked_parts(
                    day_completion(day as int, first, reference, anchor) + day_completion(
                        day as int,
                        first + 1,
                        reference,
                        anchor,
                    ),
                    day_completion(day as int, first + 2, reference, anchor),
                    reference,
                );
            }
        }
    }
    let terms = term_suggestions(lowered, reference);
    assert(marked_by_the_validator(terms, reference)) by {
        let t1 = term_suggestion(
            lowered,
            "Tomorrow"@,
            seq!["tomorrow"@, "tom"@],
            reference.plus_days(1),
            reference,
        );
        let t2 = term_suggestion(
            lowered,
            "Next week"@,
            seq!["next week"@, "next"@],
            reference.plus_days(7),
            reference,
        );
        let t3 = term_suggestion(
            lowered,
            "End of month"@,
            seq!["end of month"@, "end"@, "eom"@],
            end_of_month(reference),
            reference,
        );
        let t4 = term_suggestion(
            lowered,
            "Next month"@,
            seq!["next month"@],
            same_day_next_month(reference),
            reference,
        );
        let t5 = term_suggestion(
            lowered,
            "End of year"@,
            seq!["end of year"@, "eoy"@],
            end_of_year(reference),
            reference,
        );
        let t6 = term_suggestion(
            lowered,
            "Same day"@,
            seq!["same day"@, "today"@],
            reference,
            reference,
        );
        let t7 = term_suggestion(
            lowered,
            "1 day"@,
            seq!["1 day"@],
            reference.plus_days(1),
            reference,
        );
        let t8 = term_suggestion(
            lowered,
            "1 week"@,
            seq!["1 week"@],
            reference.plus_days(7),
            reference,
        );
        let t9 = term_suggestion(
            lowered,
            "2 weeks"@,
            seq!["2 weeks"@],
            reference.plus_days(14),
            reference,
        );
        let t10 = term_suggestion(
            lowered,
            "1 month"@,
            seq!["1 month"@],
            same_day_next_month(reference),
            reference,
        );
        lemma_term_marked(
            lowered,
            "Tomorrow"@,
            seq!["tomorrow"@, "tom"@],
            reference.plus_days(1),
            reference,
        );
        lemma_term_marked(
            lowered,
            "Next week"@,
            seq!["next week"@, "next"@],
            reference.plus_days(7),
            reference,
        );
        lemma_term_marked(
            lowered,
            "End of month"@,
            seq!["end of month"@, "end"@, "eom"@],
            end_of_month(reference),
            reference,
        );
        lemma_term_marked(
            lowered,
            "Next month"@,
            seq!["next month"@],
            same_day_next_month(reference),
            reference,
        );
        lemma_term_marked(
            lowered,
            "End of year"@,
            seq!["end of year"@, "eoy"@],
            end_of_year(reference),
            reference,
        );
        lemma_term_marked(
            lowered,
            "Same day"@,
            seq!["same day"@, "today"@],
            reference,
            reference,
        );
        lemma_term_marked(
            lowered,
            "1 day"@,
            seq!["1 day"@],
            reference.plus_days(1),
            reference,
        );
        lemma_term_marked(
            lowered,
            "1 week"@,
            seq!["1 week"@],
            reference.plus_days(7),
            reference,
        );
        lemma_term_marked(
            lowered,
            "2 weeks"@,
            seq!["2 weeks"@],
            reference.plus_days(14),
            reference,
        );
        lemma_term_marked(
            lowered,
            "1 month"@,
            seq!["1 month"@],
            same_day_next_month(reference),
            reference,
        );
        lemma_marked_parts(t1, t2, reference);
        lemma_marked_parts(t1 + t2, t3, reference);
        lemma_marked_parts(t1 + t2 + t3, t4, reference);
        lemma_marked_parts(t1 + t2 + t3 + t4, t5, reference);
        lemma_marked_parts(t1 + t2 + t3 + t4 + t5, t6, reference);
        lemma_marked_parts(t1 + t2 + t3 + t4 + t5 + t6, t7, reference);
        lemma_marked_parts(t1 + t2 + t3 + t4 + t5 + t6 + t7, t8, reference);
        lemma_marked_parts(t1 + t2 + t3 + t4 + t5 + t6 + t7 + t8, t9, reference);
        lemma_marked_parts(t1 + t2 + t3 + t4 + t5 + t6 + t7 + t8 + t9, t10, reference);
    }
    let weekdays = weekday_suggestions(lowered, reference);
    assert(marked_by_the_validator(weekdays, reference)) by {
        let weekday = named_weekday(lowered, 0);
        if weekday < 7 {
            let target = reference.plus_days(days_to_next_weekday(reference, weekday));
            assert(weekdays[0].0 == labelled(weekday_label(weekday), target));
        }
    }
    let partial = partial_completion(input, reference);
    assert(marked_by_the_validator(partial, reference));
    let phrases = phrase_suggestions(lowered, reference);
    assert(marked_by_the_validator(phrases, reference)) by {
        let last = if has_infix(lowered, "last day"@) || has_infix(lowered, "lastday"@) {
            seq![
                (
                    labelled("End of month"@, end_of_month(reference)),
                    accepted(end_of_month(reference), reference),
                ),
            ]
        } else {
            Seq::empty()
        };
        let first = if has_infix(lowered, "first of next"@) || has_infix(
            lowered,
            "firstofnext"@,
        ) {
            seq![
                (
                    labelled("First of next month"@, first_of_next_month(reference)),
                    accepted(first_of_next_month(reference), reference),
                ),
            ]
        } else {
            Seq::empty()
        };
        assert forall|i: int| 0 <= i < last.len() implies mark_is_the_validators(
            #[trigger] last[i],
            reference,
        ) by {
            assert(last[i].0 == labelled("End of month"@, end_of_month(reference)));
        }
        assert forall|i: int| 0 <= i < first.len() implies mark_is_the_validators(
            #[trigger] first[i],
            reference,
        ) by {
            assert(first[i].0 == labelled("First of next month"@, first_of_next_month(reference)));
        }
        lemma_marked_parts(last, first, reference);
    }
    lemma_marked_parts(digits, terms, reference);
    lemma_marked_parts(digits + terms, weekdays, reference);
    lemma_marked_parts(digits + terms + weekdays, partial, reference);
    lemma_marked_parts(digits + terms + weekdays + partial, phrases, reference);
}

/// The labels and marks of a list of suggestions.
pub open spec fn suggestion_views(list: Seq<(String, bool)>) -> Seq<(Seq<char>, bool)> {
    list.map_values(|entry: (String, bool)| (entry.0@, entry.1))
}

/// Before anything is typed there are exactly five suggestions, all marked
/// valid: tomorrow, next week, end of month, next month and same day, in this
/// order, whatever the reference date.
pub proof fn lemma_default_suggestions(lowered: Seq<char>, reference: Date, anchor: Date)
    ensures
        suggestions(Seq::empty(), lowered, reference, anchor).len() == 5,
        forall|i: int| 0 <= i < 5 ==> (#[trigger] suggestions(
            Seq::empty(),
            lowered,
            reference,
            anchor,
        )[i]).1,
        suggestions(Seq::empty(), lowered, reference, anchor)[0].0 == labelled(
            "Tomorrow"@,
            reference.plus_days(1),
        ),
        suggestions(Seq::empty(), lowered, reference, anchor)[1].0 == labelled(
            "Next week"@,
            reference.plus_days(7),
        ),
        suggestions(Seq::empty(), lowered, reference, anchor)[2].0 == labelled(
            "End of month"@,
            end_of_month(reference),
        ),
        suggestions(Seq::empty(), lowered, reference, anchor)[3].0 == labelled(
            "Next month"@,
            same_day_next_month(reference),
        ),
        suggestions(Seq::empty(), lowered, reference, anchor)[4].0 == labelled(
            "Same day"@,
            reference,
        ),
{
}

/// A reference date before the last year leaves room for every date that a
/// suggestion can name.
proof fn lemma_room_after(reference: Date)
    requires
        reference.is_valid(),
        reference.year < MAX_YEAR,
    ensures
        reference.day_number() + 14 <= crate::calendar::max_day_number(),
        crate::calendar::min_day_number() <= reference.day_number(),
{
    let new_year = Date { year: MAX_YEAR, month: 1, day: 1 };
    lemma_day_number_ordered(reference, new_year);
    lemma_day_number_bounds(reference);
    crate::calendar::lemma_days_before_month(MAX_YEAR as int);
}

/// The date `days` days after `reference`, for up to two weeks.
fn days_later(reference: Date, days: i64) -> (date: Date)
    requires
        reference.is_valid(),
        reference.year < MAX_YEAR,
        0 <= days <= 14,
    ensures
        date == reference.plus_days(days as int),
        date.is_valid(),
{
    proof {
        lemma_room_after(reference);
    }
    let date = reference.checked_add_days(days).unwrap();
    proof {
        lemma_plus_days(reference, days as int, date);
    }
    date
}

/// The month `steps` months after `month` of `year`.
fn month_later(year: i32, month: u32, steps: u32) -> (later: (i32, u32))
    requires
        1 <= month <= 12,
        steps <= 12,
        year <= MAX_YEAR,
    ensures
        (later.0 as int, later.1 as int) == month_after(year as int, month as int, steps as int),
        1 <= later.1 <= 12,
{
    let index: u32 = month - 1 + steps;
    let carry: i32 = if index >= 12 {
        (index / 12) as i32
    } else {
        0
    };
    (year + carry, index % 12 + 1)
}

/// The last day of the month that `date` lies in.
fn month_end(date: Date) -> (end: Date)
    requires
        date.is_valid(),
    ensures
        end == end_of_month(date),
        end.is_valid(),
{
    Date { year: date.year, month: date.month, day: days_in_month(date.year, date.month) }
}

/// The day of the next month with the same number as `date`'s, or that
/// month's last day.
fn next_month_same_day(date: Date) -> (next: Date)
    requires
        date.is_valid(),
    ensures
        next == same_day_next_month(date),
        1 <= next.month <= 12,
        1 <= next.day <= 31,
{
    let (year, month) = month_later(date.year, date.month, 1);
    Date { year, month, day: clamp_day(year, month, date.day) }
}

/// The first day of the month after the one that `date` lies in.
fn next_month_start(date: Date) -> (next: Date)
    requires
        date.is_valid(),
    ensures
        next == first_of_next_month(date),
        1 <= next.month <= 12,
{
    let (year, month) = month_later(date.year, date.month, 1);
    Date { year, month, day: 1 }
}

/// A date written as `DD/MM`.
fn render_day_month(date: Date) -> (text: Vec<char>)
    requires
        date.day < 100,
        date.month < 100,
    ensures
        text@ == day_month_text(date),
{
    let mut text: Vec<char> = Vec::new();
    push_two_digits(&mut text, date.day);
    text.push('/');
    push_two_digits(&mut text, date.month);
    assert(text@ =~= day_month_text(date));
    text
}

/// A suggestion's label: a name followed by the date in brackets.
fn render_label(name: &str, date: Date) -> (label: Vec<char>)
    requires
        date.day < 100,
        date.month < 100,
    ensures
        label@ == labelled(name@, date),
{
    let mut label: Vec<char> = chars_of(name);
    label.push(' ');
    label.push('(');
    let text = render_day_month(date);
    push_all(&mut label, &text);
    label.push(')');
    assert(label@ =~= labelled(name@, date));
    label
}

/// Whether the validator accepts the text `DD/MM` of `date`.
fn is_accepted(date: Date, reference: Date) -> (valid: bool)
    requires
        reference.is_valid(),
        date.day < 100,
        date.month < 100,
    ensures
        valid == accepted(date, reference),
{
    let text = render_day_month(date);
    accepts(&text, reference)
}

/// Whether the validator accepts a text read against `reference`.
fn accepts(text: &Vec<char>, reference: Date) -> (valid: bool)
    requires
        reference.is_valid(),
    ensures
        valid == validator_accepts(text@, reference),
{
    check_day_month(&trim(text), reference).is_ok()
}

/// Appends one suggestion to `out`.
fn push_suggestion(out: &mut Vec<(String, bool)>, label: &Vec<char>, valid: bool)
    ensures
        suggestion_views(final(out)@) == suggestion_views(old(out)@).push((label@, valid)),
{
    out.push((string_of(label), valid));
    assert(suggestion_views(out@) =~= suggestion_views(old(out)@).push((label@, valid)));
}

/// A suggestion list is viewed part by part.
proof fn lemma_views_of_parts(first: Seq<(String, bool)>, second: Seq<(String, bool)>)
    ensures
        suggestion_views(first + second) == suggestion_views(first) + suggestion_views(second),
{
    assert(suggestion_views(first + second) =~= suggestion_views(first) + suggestion_views(
        second,
    ));
}

/// Whether a typed text matches one of the aliases.
fn matches_alias_list(lowered: &Vec<char>, aliases: &Vec<Vec<char>>) -> (found: bool)
    ensures
        found == matches_any(lowered@, texts(aliases@)),
{
    let mut i: usize = 0;
    while i < aliases.len()
        invariant
            i <= aliases.len(),
            forall|k: int| 0 <= k < i ==> !fuzzy_match(lowered@, #[trigger] texts(aliases@)[k]),
        decreases aliases.len() - i,
    {
        assert(texts(aliases@)[i as int] == aliases@[i as int]@);
        if contains(&aliases[i], lowered) || contains(lowered, &aliases[i]) {
            return true;
        }
        i += 1;
    }
    false
}

/// A list of one alias.
fn one_alias(first: &str) -> (aliases: Vec<Vec<char>>)
    ensures
        texts(aliases@) == seq![first@],
{
    let mut aliases: Vec<Vec<char>> = Vec::new();
    aliases.push(chars_of(first));
    assert(texts(aliases@) =~= seq![first@]);
    aliases
}

/// A list of two aliases.
fn two_aliases(first: &str, second: &str) -> (aliases: Vec<Vec<char>>)
    ensures
        texts(aliases@) == seq![first@, second@],
{
    let mut aliases: Vec<Vec<char>> = Vec::new();
    aliases.push(chars_of(first));
    aliases.push(chars_of(second));
    assert(texts(aliases@) =~= seq![first@, second@]);
    aliases
}

/// A list of three aliases.
fn three_aliases(first: &str, second: &str, third: &str) -> (aliases: Vec<Vec<char>>)
    ensures
        texts(aliases@) == seq![first@, second@, third@],
{
    let mut aliases: Vec<Vec<char>> = Vec::new();
    aliases.push(chars_of(first));
    aliases.push(chars_of(second));
    aliases.push(chars_of(third));
    assert(texts(aliases@) =~= seq![first@, second@, third@]);
    aliases
}

/// Appends the suggestion of one term, where the typed text matches it.
fn push_term(
    out: &mut Vec<(String, bool)>,
    lowered: &Vec<char>,
    name: &str,
    aliases: &Vec<Vec<char>>,
    target: Date,
    reference: Date,
)
    requires
        reference.is_valid(),
        target.day < 100,
        target.month < 100,
    ensures
        suggestion_views(final(out)@) == suggestion_views(old(out)@) + term_suggestion(
            lowered@,
            name@,
            texts(aliases@),
            target,
            reference,
        ),
{
    if matches_alias_list(lowered, aliases) {
        let label = render_label(name, target);
        let valid = is_accepted(target, reference);
        push_suggestion(out, &label, valid);
        assert(suggestion_views(out@) =~= suggestion_views(old(out)@) + seq![(label@, valid)]);
    } else {
        assert(suggestion_views(out@) =~= suggestion_views(old(out)@) + Seq::<
            (Seq<char>, bool),
        >::empty());
    }
}

/// The suggestions of the relative terms for a typed text.
fn relative_term_suggestions(lowered: &Vec<char>, reference: Date) -> (list: Vec<(String, bool)>)
    requires
        reference.is_valid(),
        reference.year < MAX_YEAR,
    ensures
        suggestion_views(list@) == term_suggestions(lowered@, reference),
{
    let tomorrow = days_later(reference, 1);
    let next_week = days_later(reference, 7);
    let two_weeks = days_later(reference, 14);
    let end_month = month_end(reference);
    let next_month = next_month_same_day(reference);
    let end_year = Date { year: reference.year, month: 12, day: 31 };
    let mut list: Vec<(String, bool)> = Vec::new();
    assert(suggestion_views(list@) =~= Seq::<(Seq<char>, bool)>::empty());
    push_term(&mut list, lowered, "Tomorrow", &two_aliases("tomorrow", "tom"), tomorrow, reference);
    assert(suggestion_views(list@) =~= term_suggestion(
        lowered@,
        "Tomorrow"@,
        seq!["tomorrow"@, "tom"@],
        tomorrow,
        reference,
    ));
    push_term(
        &mut list,
        lowered,
        "Next week",
        &two_aliases("next week", "next"),
        next_week,
        reference,
    );
    push_term(
        &mut list,
        lowered,
        "End of month",
        &three_aliases("end of month", "end", "eom"),
        end_month,
        reference,
    );
    push_term(&mut list, lowered, "Next month", &one_alias("next month"), next_month, reference);
    push_term(
        &mut list,
        lowered,
        "End of year",
        &two_aliases("end of year", "eoy"),
        end_year,
        reference,
    );
    push_term(
        &mut list,
        lowered,
        "Same day",
        &two_aliases("same day", "today"),
        reference,
        reference,
    );
    push_term(&mut list, lowered, "1 day", &one_alias("1 day"), tomorrow, reference);
    push_term(&mut list, lowered, "1 week", &one_alias("1 week"), next_week, reference);
    push_term(&mut list, lowered, "2 weeks", &one_alias("2 weeks"), two_weeks, reference);
    push_term(&mut list, lowered, "1 month", &one_alias("1 month"), next_month, reference);
    list
}

/// What is proposed before anything is typed.
fn default_list(reference: Date) -> (list: Vec<(String, bool)>)
    requires
        reference.is_valid(),
        reference.year < MAX_YEAR,
    ensures
        suggestion_views(list@) == default_suggestions(reference),
{
    let mut list: Vec<(String, bool)> = Vec::new();
    push_suggestion(&mut list, &render_label("Tomorrow", days_later(reference, 1)), true);
    push_suggestion(&mut list, &render_label("Next week", days_later(reference, 7)), true);
    push_suggestion(&mut list, &render_label("End of month", month_end(reference)), true);
    push_suggestion(&mut list, &render_label("Next month", next_month_same_day(reference)), true);
    push_suggestion(&mut list, &render_label("Same day", reference), true);
    assert(suggestion_views(list@) =~= default_suggestions(reference));
    list
}

/// Whether every character of `text` is a decimal digit.
fn is_all_digits(text: &Vec<char>) -> (digits: bool)
    ensures
        digits == all_digits(text@),
{
    let mut i: usize = 0;
    while i < text.len()
        invariant
            i <= text.len(),
            forall|k: int| 0 <= k < i ==> crate::text::is_digit(#[trigger] text@[k]),
        decreases text.len() - i,
    {
        if text[i] < '0' || text[i] > '9' {
            assert(!crate::text::is_digit(text@[i as int]));
            return false;
        }
        i += 1;
    }
    true
}

/// Appends one completion of a typed day number, where the validator accepts
/// it.
fn push_day_completion(
    out: &mut Vec<(String, bool)>,
    day: u32,
    steps: u32,
    reference: Date,
    anchor: Date,
)
    requires
        reference.is_valid(),
        anchor.is_valid(),
        1 <= day <= 31,
        steps <= 3,
    ensures
        suggestion_views(final(out)@) == suggestion_views(old(out)@) + day_completion(
            day as int,
            steps as int,
            reference,
            anchor,
        ),
{
    let (year, month) = month_later(anchor.year, anchor.month, steps);
    let date = Date { year, month, day: clamp_day(year, month, day) };
    if is_accepted(date, reference) {
        let text = render_day_month(date);
        push_suggestion(out, &text, true);
        assert(suggestion_views(out@) =~= suggestion_views(old(out)@) + seq![(text@, true)]);
    } else {
        assert(suggestion_views(out@) =~= suggestion_views(old(out)@) + Seq::<
            (Seq<char>, bool),
        >::empty());
    }
}

/// The completions of a typed day number.
fn day_number_completions(input: &Vec<char>, reference: Date, anchor: Date) -> (list: Vec<
    (String, bool),
>)
    requires
        reference.is_valid(),
        anchor.is_valid(),
    ensures
        suggestion_views(list@) == digit_completions(input@, reference, anchor),
{
    let mut list: Vec<(String, bool)> = Vec::new();
    assert(suggestion_views(list@) =~= Seq::<(Seq<char>, bool)>::empty());
    let day: u32 = match parse_u32(input) {
        Some(day) => day,
        None => {
            return list;
        },
    };
    if !is_all_digits(input) || day < 1 || day > 31 {
        return list;
    }
    let first: u32 = if input.len() == 1 && clamp_day(anchor.year, anchor.month, day)
        < anchor.day {
        1
    } else {
        0
    };
    push_day_completion(&mut list, day, first, reference, anchor);
    assert(suggestion_views(list@) =~= day_completion(
        day as int,
        first as int,
        reference,
        anchor,
    ));
    push_day_completion(&mut list, day, first + 1, reference, anchor);
    push_day_completion(&mut list, day, first + 2, reference, anchor);
    list
}

/// The lower-case name of a weekday, Monday being 0, cut to three letters.
fn weekday_short(weekday: u32) -> (name: &'static str)
    ensures
        name@ == weekday_abbreviation(weekday as int),
{
    if weekday == 0 {
        "mon"
    } else if weekday == 1 {
        "tue"
    } else if weekday == 2 {
        "wed"
    } else if weekday == 3 {
        "thu"
    } else if weekday == 4 {
        "fri"
    } else if weekday == 5 {
        "sat"
    } else {
        "sun"
    }
}

/// The name of a weekday as a label shows it, Monday being 0.
fn weekday_long(weekday: u32) -> (name: &'static str)
    ensures
        name@ == weekday_label(weekday as int),
{
    if weekday == 0 {
        "Next Monday"
    } else if weekday == 1 {
        "Next Tuesday"
    } else if weekday == 2 {
        "Next Wednesday"
    } else if weekday == 3 {
        "Next Thursday"
    } else if weekday == 4 {
        "Next Friday"
    } else if weekday == 5 {
        "Next Saturday"
    } else {
        "Next Sunday"
    }
}

/// The first weekday, Monday being 0, that the typed text names; 7 where it
/// names none.
fn find_named_weekday(lowered: &Vec<char>) -> (weekday: u32)
    ensures
        weekday == named_weekday(lowered@, 0),
        weekday <= 7,
{
    let mut weekday: u32 = 0;
    while weekday < 7
        invariant
            weekday <= 7,
            named_weekday(lowered@, 0) == named_weekday(lowered@, weekday as int),
        decreases 7 - weekday,
    {
        let mut pattern: Vec<char> = chars_of("next ");
        let short = chars_of(weekday_short(weekday));
        push_all(&mut pattern, &short);
        if contains(lowered, &pattern) {
            return weekday;
        }
        weekday += 1;
    }
    weekday
}

/// The suggestion for a named weekday.
fn named_weekday_suggestions(lowered: &Vec<char>, reference: Date) -> (list: Vec<(String, bool)>)
    requires
        reference.is_valid(),
        reference.year < MAX_YEAR,
    ensures
        suggestion_views(list@) == weekday_suggestions(lowered@, reference),
{
    let mut list: Vec<(String, bool)> = Vec::new();
    assert(suggestion_views(list@) =~= Seq::<(Seq<char>, bool)>::empty());
    let weekday: u32 = find_named_weekday(lowered);
    if weekday < 7 {
        let today: u32 = reference.weekday();
        let ahead: u32 = (weekday + 7 - today + 6) % 7 + 1;
        assert(ahead == days_to_next_weekday(reference, weekday as int));
        let target = days_later(reference, ahead as i64);
        let label = render_label(weekday_long(weekday), target);
        let valid = is_accepted(target, reference);
        push_suggestion(&mut list, &label, valid);
        assert(suggestion_views(list@) =~= seq![(label@, valid)]);
    }
    list
}

/// The completion of a text with one `/` and nothing on one side of it.
fn complete_day_month(input: &Vec<char>, reference: Date) -> (list: Vec<(String, bool)>)
    requires
        reference.is_valid(),
    ensures
        suggestion_views(list@) == partial_completion(input@, reference),
{
    let mut list: Vec<(String, bool)> = Vec::new();
    assert(suggestion_views(list@) =~= Seq::<(Seq<char>, bool)>::empty());
    let parts = split(input, '/');
    assert(texts(parts@).len() == parts@.len());
    if parts.len() == 2 {
        assert(texts(parts@)[0] == parts@[0]@);
        assert(texts(parts@)[1] == parts@[1]@);
        if parts[0].len() == 0 || parts[1].len() == 0 {
            let mut text: Vec<char> = Vec::new();
            if parts[0].len() == 0 {
                push_two_digits(&mut text, reference.day);
            } else {
                push_all(&mut text, &parts[0]);
            }
            text.push('/');
            if parts[1].len() == 0 {
                push_two_digits(&mut text, reference.month);
            } else {
                push_all(&mut text, &parts[1]);
            }
            let valid = accepts(&text, reference);
            push_suggestion(&mut list, &text, valid);
            assert(suggestion_views(list@) =~= seq![(text@, valid)]);
            assert(text@ =~= (if parts@[0]@.len() == 0 {
                two_digits(reference.day as int)
            } else {
                parts@[0]@
            }) + seq!['/'] + (if parts@[1]@.len() == 0 {
                two_digits(reference.month as int)
            } else {
                parts@[1]@
            }));
        }
    }
    list
}

/// The suggestions for the phrases `last day` and `first of next`.
fn anchor_phrase_suggestions(lowered: &Vec<char>, reference: Date) -> (list: Vec<(String, bool)>)
    requires
        reference.is_valid(),
    ensures
        suggestion_views(list@) == phrase_suggestions(lowered@, reference),
{
    let mut list: Vec<(String, bool)> = Vec::new();
    assert(suggestion_views(list@) =~= Seq::<(Seq<char>, bool)>::empty());
    if contains(lowered, &chars_of("last day")) || contains(lowered, &chars_of("lastday")) {
        let target = month_end(reference);
        let label = render_label("End of month", target);
        let valid = is_accepted(target, reference);
        push_suggestion(&mut list, &label, valid);
    }
    let ghost first = suggestion_views(list@);
    if contains(lowered, &chars_of("first of next")) || contains(
        lowered,
        &chars_of("firstofnext"),
    ) {
        let target = next_month_start(reference);
        let label = render_label("First of next month", target);
        let valid = is_accepted(target, reference);
        push_suggestion(&mut list, &label, valid);
    }
    assert(suggestion_views(list@) =~= phrase_suggestions(lowered@, reference));
    list
}

/// Appends the suggestions of `part` to `out`.
fn append_suggestions(out: &mut Vec<(String, bool)>, part: Vec<(String, bool)>)
    ensures
        suggestion_views(final(out)@) == suggestion_views(old(out)@) + suggestion_views(part@),
{
    let mut part = part;
    proof {
        lemma_views_of_parts(out@, part@);
    }
    out.append(&mut part);
}

/// The completions proposed for a typed text, given the text as typed and in
/// lower case, with the reference date that relative terms start from and the
/// anchor date that completions of a day number start from.
pub fn suggest_from_text(
    input: &Vec<char>,
    lowered: &Vec<char>,
    reference: Date,
    anchor: Date,
) -> (list: Vec<(String, bool)>)
    requires
        reference.is_valid(),
        reference.year < MAX_YEAR,
        anchor.is_valid(),
    ensures
        suggestion_views(list@) == suggestions(input@, lowered@, reference, anchor),
{
    if input.len() == 0 {
        return default_list(reference);
    }
    let mut list = day_number_completions(input, reference, anchor);
    append_suggestions(&mut list, relative_term_suggestions(lowered, reference));
    append_suggestions(&mut list, named_weekday_suggestions(lowered, reference));
    append_suggestions(&mut list, complete_day_month(input, reference));
    append_suggestions(&mut list, anchor_phrase_suggestions(lowered, reference));
    list
}

/// The completions proposed for the text `input`, typed where a day and month
/// are expected. `reference` is the date that relative terms such as
/// `tomorrow` start from and that the validity of each proposal is judged
/// against; `anchor` is the date whose month the completions of a bare day
/// number start from. Matching ignores the case of letters.
pub fn suggest_dates(input: &str, reference: Date, anchor: Date) -> (list: Vec<(String, bool)>)
    requires
        reference.is_valid(),
        reference.year < MAX_YEAR,
        anchor.is_valid(),
    ensures
        suggestion_views(list@) == suggestions(
            input@,
            lowercase_of(input@),
            reference,
            anchor,
        ),
{
    let typed = chars_of(input);
    let lowered_text = input.to_lowercase();
    let lowered = chars_of(lowered_text.as_str());
    suggest_from_text(&typed, &lowered, reference, anchor)
}

/// The completions proposed for the text `input`, with `start_date` as both
/// the reference date and the anchor date.
pub fn get_date_suggestions(input: &str, start_date: Date) -> (list: Vec<(String, bool)>)
    requires
        start_date.is_valid(),
        start_date.year < MAX_YEAR,
    ensures
        suggestion_views(list@) == suggestions(
            input@,
            lowercase_of(input@),
            start_date,
            start_date,
        ),
{
    suggest_dates(input, start_date, start_date)
}

} // verus!
