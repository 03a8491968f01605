//! The interactive session's reaction to keys: what the event form makes of
//! the texts typed into it, and how each key changes the session in each of
//! its modes. Work on files and on the remote is left to the caller as a list
//! of effects.

use crate::app::{views, App, AppView, CalendarEvent, EventView, InputMode, PopupInputField, Recurrence};
use crate::cache::{
    cache_after_invalidate, cache_after_query, expandable, query_result, window_fits, window_for,
    CacheView, InstanceCache,
};
use crate::calendar::{lemma_plus_days, valid_ymd, Date, Time, MAX_YEAR};
use crate::date_utils::{
    check_day_month, day_month_date, suggest_from_text, suggestion_views, suggestions,
};
use crate::listing::{sort_events, sorted_by, SortKey};
use crate::sync::{StatusView, SyncStatus};
use crate::text::{
    chars_of, fields, is_word, lowercase_of, padded_two, parse_u32, parsed_u32, position_of,
    push_all, push_padded_two, slice_of, split, string_of, texts, trim, trimmed,
};
use chrono::{NaiveTime, Timelike};
use vstd::prelude::*;
use vstd::string::StringExecFns;

verus! {

/// The place of a recurrence, named in lower case, in the list none, daily,
/// weekly, monthly, yearly; 0 for any other text.
pub open spec fn recurrence_index(lowered: Seq<char>) -> int {
    if lowered == "daily"@ {
        1
    } else if lowered == "weekly"@ {
        2
    } else if lowered == "monthly"@ {
        3
    } else if lowered == "yearly"@ {
        4
    } else {
        0
    }
}

/// The place of a recurrence, named in lower case, in the list none, daily,
/// weekly, monthly, yearly; 0 for any other text.
pub fn recurrence_index_of(lowered: &Vec<char>) -> (index: usize)
    ensures
        index == recurrence_index(lowered@),
{
    if is_word(lowered, "daily") {
        1
    } else if is_word(lowered, "weekly") {
        2
    } else if is_word(lowered, "monthly") {
        3
    } else if is_word(lowered, "yearly") {
        4
    } else {
        0
    }
}

/// The place of the recurrence that `s` names, in any mix of upper and lower
/// case, in the list none, daily, weekly, monthly, yearly; 0 for any other
/// text.
pub fn recurrence_str_to_index(s: &str) -> (index: usize)
    ensures
        index == recurrence_index(lowercase_of(s@)),
{
    let lowered = s.to_lowercase();
    let chars = chars_of(lowered.as_str());
    recurrence_index_of(&chars)
}

/// A time text brought into the form `HH:MM`. Two fields around one `:` are
/// read as hour and minute, a field that is no number as 0, and each is
/// written with at least two digits. A lone number up to 23 is an hour, and
/// gets `:00`. Any other text stays as it is.
pub open spec fn normalized_time(text: Seq<char>) -> Seq<char> {
    if fields(text, ':').len() == 2 {
        let hour = match parsed_u32(fields(text, ':')[0]) {
            Some(hour) => hour,
            None => 0,
        };
        let minute = match parsed_u32(fields(text, ':')[1]) {
            Some(minute) => minute,
            None => 0,
        };
        padded_two(hour as nat) + seq![':'] + padded_two(minute as nat)
    } else {
        match parsed_u32(text) {
            Some(hour) => if hour <= 23 {
                padded_two(hour as nat) + seq![':', '0', '0']
            } else {
                text
            },
            None => text,
        }
    }
}

/// Brings a time text without white space around it into the form `HH:MM`.
pub fn normalize_time_text(text: &Vec<char>) -> (normal: Vec<char>)
    ensures
        normal@ == normalized_time(text@),
{
    let parts = split(text, ':');
    assert(texts(parts@).len() == parts@.len());
    let mut normal: Vec<char> = Vec::new();
    if parts.len() == 2 {
        assert(texts(parts@)[0] == parts@[0]@);
        assert(texts(parts@)[1] == parts@[1]@);
        let hour: u32 = match parse_u32(&parts[0]) {
            Some(hour) => hour,
            None => 0,
        };
        let minute: u32 = match parse_u32(&parts[1]) {
            Some(minute) => minute,
            None => 0,
        };
        push_padded_two(&mut normal, hour);
        normal.push(':');
        push_padded_two(&mut normal, minute);
        assert(normal@ =~= normalized_time(text@));
        return normal;
    }
    if let Some(hour) = parse_u32(text) {
        if hour <= 23 {
            push_padded_two(&mut normal, hour);
            normal.push(':');
            normal.push('0');
            normal.push('0');
            assert(normal@ =~= normalized_time(text@));
            return normal;
        }
    }
    push_all(&mut normal, text);
    assert(normal@ =~= text@);
    normal
}

/// Brings the time text `input` into the form `HH:MM`, ignoring white space
/// around it: `14` becomes `14:00`, `9` becomes `09:00`, `9:5` becomes
/// `09:05`. A text that is no time stays as it is, without the white space.
pub fn normalize_time_input(input: &str) -> (normal: String)
    ensures
        normal@ == normalized_time(trimmed(input@)),
{
    let chars = chars_of(input);
    let inner = trim(&chars);
    let normal = normalize_time_text(&inner);
    string_of(&normal)
}

/// A time of day written as `HH:MM`.
pub open spec fn clock_text(time: Time) -> Seq<char> {
    padded_two(time.hour as nat) + seq![':'] + padded_two(time.minute as nat)
}

/// A date written as `DD/MM`, each number with at least two digits.
pub open spec fn short_date_text(date: Date) -> Seq<char> {
    padded_two(date.day as nat) + seq!['/'] + padded_two(date.month as nat)
}

/// The name under which a recurrence is typed and stored.
pub open spec fn recurrence_name(recurrence: Recurrence) -> Seq<char> {
    match recurrence {
        Recurrence::Never => "none"@,
        Recurrence::Daily => "daily"@,
        Recurrence::Weekly => "weekly"@,
        Recurrence::Monthly => "monthly"@,
        Recurrence::Yearly => "yearly"@,
    }
}

/// The recurrence at a place of the list none, daily, weekly, monthly,
/// yearly; none for a place beyond it.
pub open spec fn recurrence_at(index: int) -> Recurrence {
    if index == 1 {
        Recurrence::Daily
    } else if index == 2 {
        Recurrence::Weekly
    } else if index == 3 {
        Recurrence::Monthly
    } else if index == 4 {
        Recurrence::Yearly
    } else {
        Recurrence::Never
    }
}

/// A time of day written as `HH:MM`.
pub fn format_clock(time: Time) -> (text: String)
    ensures
        text@ == clock_text(time),
{
    let mut chars: Vec<char> = Vec::new();
    push_padded_two(&mut chars, time.hour);
    chars.push(':');
    push_padded_two(&mut chars, time.minute);
    assert(chars@ =~= clock_text(time));
    string_of(&chars)
}

/// A date written as `DD/MM`.
pub fn format_short_date(date: Date) -> (text: String)
    ensures
        text@ == short_date_text(date),
{
    let mut chars: Vec<char> = Vec::new();
    push_padded_two(&mut chars, date.day);
    chars.push('/');
    push_padded_two(&mut chars, date.month);
    assert(chars@ =~= short_date_text(date));
    string_of(&chars)
}

/// The name under which a recurrence is typed and stored.
pub fn recurrence_to_str(recurrence: Recurrence) -> (name: &'static str)
    ensures
        name@ == recurrence_name(recurrence),
{
    match recurrence {
        Recurrence::Never => "none",
        Recurrence::Daily => "daily",
        Recurrence::Weekly => "weekly",
        Recurrence::Monthly => "monthly",
        Recurrence::Yearly => "yearly",
    }
}

/// The recurrence at a place of the list none, daily, weekly, monthly,
/// yearly.
pub fn recurrence_from_index(index: usize) -> (recurrence: Recurrence)
    ensures
        recurrence == recurrence_at(index as int),
{
    if index == 1 {
        Recurrence::Daily
    } else if index == 2 {
        Recurrence::Weekly
    } else if index == 3 {
        Recurrence::Monthly
    } else if index == 4 {
        Recurrence::Yearly
    } else {
        Recurrence::Never
    }
}

/// Whether two events say the same in every field.
pub fn same_event(first: &CalendarEvent, second: &CalendarEvent) -> (same: bool)
    ensures
        same == (first@ == second@),
{
    let same_base = match (first.base_date, second.base_date) {
        (Some(a), Some(b)) => a == b,
        (None, None) => true,
        _ => false,
    };
    let same_end = match (first.end_date, second.end_date) {
        (Some(a), Some(b)) => a == b,
        (None, None) => true,
        _ => false,
    };
    let same_end_time = match (first.end_time, second.end_time) {
        (Some(a), Some(b)) => a == b,
        (None, None) => true,
        _ => false,
    };
    first.id == second.id && first.date == second.date && first.time == second.time && first.title
        == second.title && first.description == second.description && first.recurrence
        == second.recurrence && first.is_recurring_instance == second.is_recurring_instance
        && same_base && first.start_date == second.start_date && same_end && first.start_time
        == second.start_time && same_end_time && first.is_all_day == second.is_all_day
}

/// Whether `candidate` can be the base event of the occurrence `instance`
/// whose origin is `base_date`: it is no occurrence itself, lies on that day,
/// and has the occurrence's title, time and description.
pub open spec fn is_base_of(candidate: EventView, instance: EventView, base_date: Date) -> bool {
    candidate.date == base_date && candidate.title == instance.title && candidate.time
        == instance.time && candidate.description == instance.description
        && !candidate.is_recurring_instance
}

/// The index of the first event that can be the base event of `instance`, or
/// the number of events where none can.
pub open spec fn base_index(events: Seq<EventView>, instance: EventView, base_date: Date) -> int
    decreases events.len(),
{
    if events.len() == 0 || is_base_of(events[0], instance, base_date) {
        0
    } else {
        1 + base_index(events.drop_first(), instance, base_date)
    }
}

/// The base event of an occurrence: the first of `events` that can be it.
/// An event that is no occurrence, or names no origin, has none.
pub open spec fn base_event_of(instance: EventView, events: Seq<EventView>) -> Option<EventView> {
    match instance.base_date {
        Some(base_date) => if instance.is_recurring_instance && 0 <= base_index(
            events,
            instance,
            base_date,
        ) < events.len() {
            Some(events[base_index(events, instance, base_date)])
        } else {
            None
        },
        None => None,
    }
}

/// The base event that the occurrence `instance` was derived from, looked up
/// among `events`.
pub fn find_base_event_for_instance(instance: &CalendarEvent, events: &Vec<CalendarEvent>) -> (base:
    Option<CalendarEvent>)
    ensures
        base matches Some(event) ==> base_event_of(instance@, views(events@)) == Some(event@),
        base is None ==> base_event_of(instance@, views(events@)) is None,
{
    if !instance.is_recurring_instance {
        return None;
    }
    let base_date = match instance.base_date {
        Some(base_date) => base_date,
        None => {
            return None;
        },
    };
    let ghost all = views(events@);
    let mut i: usize = 0;
    assert(all.skip(0) == all);
    while i < events.len()
        invariant
            i <= events.len(),
            all == views(events@),
            instance.is_recurring_instance,
            instance.base_date == Some(base_date),
            base_index(all, instance@, base_date) == i + base_index(
                all.skip(i as int),
                instance@,
                base_date,
            ),
        decreases events.len() - i,
    {
        let candidate = &events[i];
        assert(all.skip(i as int)[0] == candidate@);
        if candidate.date == base_date && candidate.title == instance.title && candidate.time
            == instance.time && candidate.description == instance.description
            && !candidate.is_recurring_instance {
            assert(all[i as int] == candidate@);
            return Some(candidate.clone());
        }
        assert(all.skip(i as int).drop_first() == all.skip(i + 1));
        i += 1;
    }
    None
}

/// A key of the keyboard, as far as the session tells keys apart.
#[derive(Clone, Copy, PartialEq, Eq, Debug)]
pub enum Key {
    Char(char),
    Enter,
    Esc,
    Tab,
    BackTab,
    Backspace,
    Delete,
    Left,
    Right,
    Up,
    Down,
    Other,
}

/// Something for the caller to do after a key was handled or an answer was
/// taken in: work on files and on the remote that the session itself does
/// not do.
#[derive(PartialEq, Eq, Debug)]
pub enum Effect {
    /// Remove the file that stores this event.
    RemoveEvent(CalendarEvent),
    /// Store this event in a file.
    StoreEvent(CalendarEvent),
    /// Push to the remote with this address, without waiting for the outcome.
    PushInBackground(String),
    /// Ask for the status against the remote and hand it to `status_reported`.
    CheckStatus,
    /// Pull from the remote and hand the outcome to `pull_finished`.
    Pull,
    /// Push to the remote and hand the outcome to `push_finished`.
    Push,
    /// Load the events again and hand them to `events_reloaded`.
    ReloadEvents,
}

/// An effect with its event as a view and its text as characters.
#[verifier::ext_equal]
pub enum EffectView {
    RemoveEvent(EventView),
    StoreEvent(EventView),
    PushInBackground(Seq<char>),
    CheckStatus,
    Pull,
    Push,
    ReloadEvents,
}

impl View for Effect {
    type V = EffectView;

    open spec fn view(&self) -> EffectView {
        match self {
            Effect::RemoveEvent(event) => EffectView::RemoveEvent(event@),
            Effect::StoreEvent(event) => EffectView::StoreEvent(event@),
            Effect::PushInBackground(remote) => EffectView::PushInBackground(remote@),
            Effect::CheckStatus => EffectView::CheckStatus,
            Effect::Pull => EffectView::Pull,
            Effect::Push => EffectView::Push,
            Effect::ReloadEvents => EffectView::ReloadEvents,
        }
    }
}

/// The views of a list of effects, in order.
pub open spec fn effect_views(effects: Seq<Effect>) -> Seq<EffectView> {
    effects.map_values(|effect: Effect| effect@)
}

/// What handling a key leads to: whether the session goes on, and what is
/// left for the caller to do, in order.
#[derive(PartialEq, Eq, Debug)]
pub struct Outcome {
    pub keep_running: bool,
    pub effects: Vec<Effect>,
}

/// A session after a step, with what the step leaves to the caller.
#[verifier::ext_equal]
pub struct Step {
    pub app: AppView,
    pub keep_running: bool,
    pub effects: Seq<EffectView>,
}

/// A step that changes the session and leaves nothing to the caller.
pub open spec fn quiet(app: AppView) -> Step {
    Step { app, keep_running: true, effects: Seq::empty() }
}

/// The time that chrono reads from a text in the form `%H:%M`, if it reads
/// one.
pub uninterp spec fn clock_time_of(text: Seq<char>) -> Option<Time>;

/// Calls chrono's `NaiveTime::parse_from_str` with the format `%H:%M` and
/// copies hour, minute and second out. The contract claims that the outcome
/// depends on the text alone, and that a time read is a time of the day.
#[verifier::external_body]
pub(crate) fn parse_clock_time(text: &str) -> (time: Option<Time>)
    ensures
        time == clock_time_of(text@),
        time matches Some(found) ==> found.is_valid(),
{
    match NaiveTime::parse_from_str(text, "%H:%M") {
        Ok(found) => Some(Time { hour: found.hour(), minute: found.minute(), second: found.second() }),
        Err(_) => None,
    }
}

/// Calls uuid's `Uuid::new_v4` and writes the identifier out as text. The
/// identifier is random, so the contract claims nothing of it.
#[verifier::external_body]
fn fresh_event_id() -> (id: String) {
    uuid::Uuid::new_v4().to_string()
}

/// The session with the empty event form open for a new event on the
/// selected day.
pub open spec fn add_popup_opened(app: AppView) -> AppView {
    AppView {
        show_add_event_popup: true,
        input_mode: InputMode::EditingEventPopup,
        current_date_for_new_event: app.date,
        popup_event_title: Seq::empty(),
        popup_event_time: Seq::empty(),
        popup_event_end_date: Seq::empty(),
        popup_event_end_time: Seq::empty(),
        popup_event_recurrence: Seq::empty(),
        popup_event_description: Seq::empty(),
        input: Seq::empty(),
        selected_input_field: PopupInputField::Title,
        cursor_position: 0,
        is_editing: false,
        event_being_edited: None,
        date_input_error: None,
        date_suggestions: Seq::empty(),
        show_date_suggestions: false,
        ..app
    }
}

/// The session with the selected day moved by `days`, and the months on
/// screen following it. The day stays where the move would leave the dates
/// that can be held.
pub open spec fn day_moved(app: AppView, days: int) -> AppView {
    (if crate::calendar::min_day_number() <= app.date.day_number() + days
        <= crate::calendar::max_day_number() {
        AppView { date: app.date.plus_days(days), ..app }
    } else {
        app
    }).with_adjusted_view()
}

/// Whether the events of the selected day can be listed: the window around
/// the day can be held and the events can be expanded up to its end.
pub open spec fn day_can_be_listed(app: AppView) -> bool {
    window_fits(app.date, app.date) && expandable(app.events, window_for(app.date, app.date).1)
}

/// The test for the events that take place on `day`: those that start on or
/// before it and end on or after it, and those without end that start on it.
pub open spec fn covers(day: Date) -> spec_fn(EventView) -> bool {
    |event: EventView|
        match event.end_date {
            Some(end) => event.start_date.on_or_before(day) && day.on_or_before(end),
            None => event.start_date == day,
        }
}

/// The cache after the events of the selected day were listed.
pub open spec fn cache_after_listing(app: AppView) -> CacheView {
    if day_can_be_listed(app) {
        cache_after_query(app.cache, app.events, app.date, app.date)
    } else {
        app.cache
    }
}

/// The events and occurrences that take place on the selected day, in order
/// of their time; none where the day cannot be listed.
pub open spec fn day_listing(app: AppView) -> Seq<EventView> {
    if day_can_be_listed(app) {
        sorted_by(
            SortKey::Time,
            query_result(cache_after_listing(app), app.events).filter(covers(app.date)),
        )
    } else {
        Seq::empty()
    }
}

/// The session with the list of the selected day's events open.
pub open spec fn events_popup_opened(app: AppView) -> AppView {
    AppView {
        show_view_events_popup: true,
        events_to_display_in_popup: day_listing(app),
        cache: cache_after_listing(app),
        selected_event_index: 0,
        input_mode: InputMode::ViewEventsPopup,
        ..app
    }
}

/// Opening the synchronisation screen: with a provider, the screen opens
/// empty and the status is asked for; without one, nothing happens.
pub open spec fn sync_opened(app: AppView) -> Step {
    if app.sync_provider is Some {
        Step {
            app: AppView {
                input_mode: InputMode::Sync,
                sync_message: Seq::empty(),
                sync_status: None,
                ..app
            },
            keep_running: true,
            effects: seq![EffectView::CheckStatus],
        }
    } else {
        quiet(app)
    }
}

/// A key in the calendar itself.
pub open spec fn normal_step(app: AppView, key: Key) -> Step {
    match key {
        Key::Char('q') => Step { app, keep_running: false, effects: Seq::empty() },
        Key::Char('a') => quiet(add_popup_opened(app)),
        Key::Left | Key::Char('h') => quiet(day_moved(app, -1)),
        Key::Right | Key::Char('l') => quiet(day_moved(app, 1)),
        Key::Up | Key::Char('k') => quiet(day_moved(app, -7)),
        Key::Down | Key::Char('j') => quiet(day_moved(app, 7)),
        Key::Char('o') => quiet(events_popup_opened(app)),
        Key::Char('s') => sync_opened(app),
        _ => quiet(app),
    }
}

/// `text` with `c` put in at the index `at`, or at the end where `at` lies
/// beyond it.
pub open spec fn with_char(text: Seq<char>, at: int, c: char) -> Seq<char> {
    if 0 <= at <= text.len() {
        text.insert(at, c)
    } else {
        text.push(c)
    }
}

/// `text` without the character at the index `at`, if it has one.
pub open spec fn without_char(text: Seq<char>, at: int) -> Seq<char> {
    if 0 <= at < text.len() {
        text.remove(at)
    } else {
        text
    }
}

/// The session after the end date field was judged anew. An accepted text
/// clears the error and brings the suggestions for it, shown where there are
/// any; a refused one sets the error and clears the suggestions.
pub open spec fn end_date_judged(app: AppView) -> AppView {
    match day_month_date(trimmed(app.popup_event_end_date), app.current_date_for_new_event) {
        Ok(_) => {
            let list = if app.current_date_for_new_event.year < MAX_YEAR {
                suggestions(
                    app.popup_event_end_date,
                    lowercase_of(app.popup_event_end_date),
                    app.current_date_for_new_event,
                    app.current_date_for_new_event,
                )
            } else {
                Seq::empty()
            };
            AppView {
                date_input_error: None,
                date_suggestions: list,
                show_date_suggestions: list.len() > 0,
                selected_suggestion_index: 0,
                ..app
            }
        },
        Err(reason) => AppView {
            date_input_error: Some(reason.message()),
            date_suggestions: Seq::empty(),
            show_date_suggestions: false,
            selected_suggestion_index: 0,
            ..app
        },
    }
}

/// The session after an edit of the field that has the cursor: the end date
/// is judged anew where it was the one edited.
pub open spec fn after_edit(app: AppView) -> AppView {
    if app.selected_input_field == PopupInputField::EndDate {
        end_date_judged(app)
    } else {
        app
    }
}

/// The cursor one place further, as far as it can be counted.
pub open spec fn cursor_after(cursor: usize) -> usize {
    if cursor < usize::MAX {
        (cursor + 1) as usize
    } else {
        cursor
    }
}

/// The session after a character was typed into the form. The recurrence
/// field takes no typing.
pub open spec fn char_typed(app: AppView, c: char) -> AppView {
    if app.selected_input_field == PopupInputField::Recurrence {
        app
    } else {
        after_edit(
            AppView {
                cursor_position: cursor_after(app.cursor_position),
                ..app.with_current_field(
                    with_char(app.current_field(), app.cursor_position as int, c),
                )
            },
        )
    }
}

/// The session after the character before the cursor was erased.
pub open spec fn char_erased(app: AppView) -> AppView {
    if app.cursor_position > 0 {
        after_edit(
            AppView {
                cursor_position: (app.cursor_position - 1) as usize,
                ..app.with_current_field(
                    without_char(app.current_field(), app.cursor_position - 1),
                )
            },
        )
    } else {
        app
    }
}

/// The mode that the session returns to when the event form closes.
pub open spec fn mode_behind_form(app: AppView) -> InputMode {
    if app.show_view_events_popup {
        InputMode::ViewEventsPopup
    } else {
        InputMode::Normal
    }
}

/// The session after the event form was given up.
pub open spec fn form_cancelled(app: AppView) -> AppView {
    AppView {
        show_add_event_popup: false,
        popup_event_title: Seq::empty(),
        popup_event_time: Seq::empty(),
        popup_event_end_date: Seq::empty(),
        popup_event_end_time: Seq::empty(),
        popup_event_description: Seq::empty(),
        popup_event_recurrence: Seq::empty(),
        input: Seq::empty(),
        is_editing: false,
        event_being_edited: None,
        input_mode: mode_behind_form(app),
        ..app
    }
}

/// The session with the recurrence list open where the recurrence field has
/// the cursor, the entry that the field names being selected.
pub open spec fn recurrence_list_opened(app: AppView) -> AppView {
    if app.selected_input_field == PopupInputField::Recurrence {
        AppView {
            input_mode: InputMode::SelectingRecurrence,
            selected_recurrence_index: recurrence_index(
                lowercase_of(app.popup_event_recurrence),
            ) as usize,
            ..app
        }
    } else {
        app
    }
}

/// The session with the cursor at the end of `field`.
pub open spec fn field_entered(app: AppView, field: PopupInputField) -> AppView {
    let entered = AppView { selected_input_field: field, ..app };
    AppView { cursor_position: entered.current_field().len() as usize, ..entered }
}

/// The session with the cursor at the end of the end date field, without
/// error or suggestions.
pub open spec fn end_date_entered(app: AppView) -> AppView {
    AppView {
        date_input_error: None,
        date_suggestions: Seq::empty(),
        show_date_suggestions: false,
        ..field_entered(app, PopupInputField::EndDate)
    }
}

/// The date that a suggestion proposes: what its label holds in brackets, or
/// the whole label where it has none.
pub open spec fn proposed_date(label: Seq<char>) -> Seq<char> {
    let open = position_of(label, '(');
    if 0 <= open < label.len() {
        let inner = label.skip(open + 1);
        inner.take(position_of(inner, ')'))
    } else {
        label
    }
}

/// The suggestion that is selected: the one at the selected index, or the
/// first where that index lies beyond the list.
pub open spec fn selected_suggestion(app: AppView) -> Seq<char> {
    if app.selected_suggestion_index < app.date_suggestions.len() {
        app.date_suggestions[app.selected_suggestion_index as int].0
    } else {
        app.date_suggestions[0].0
    }
}

/// The session after the selected suggestion was taken over into the end
/// date field.
pub open spec fn suggestion_accepted(app: AppView) -> AppView {
    let text = proposed_date(selected_suggestion(app));
    AppView {
        popup_event_end_date: text,
        date_input_error: None,
        show_date_suggestions: false,
        selected_input_field: PopupInputField::EndDate,
        cursor_position: text.len() as usize,
        ..app
    }
}

/// The session after the tabulator key: the cursor goes to the end of the
/// next field. In the end date field the key takes the selected suggestion
/// over instead, where suggestions are shown.
pub open spec fn tabbed(app: AppView) -> AppView {
    recurrence_list_opened(
        match app.selected_input_field {
            PopupInputField::Title => field_entered(app, PopupInputField::Time),
            PopupInputField::Time => end_date_entered(app),
            PopupInputField::EndDate => if app.show_date_suggestions
                && app.date_suggestions.len() > 0 {
                suggestion_accepted(app)
            } else {
                field_entered(app, PopupInputField::EndTime)
            },
            PopupInputField::EndTime => field_entered(app, PopupInputField::Description),
            PopupInputField::Description => field_entered(app, PopupInputField::Recurrence),
            PopupInputField::Recurrence => field_entered(app, PopupInputField::Title),
        },
    )
}

/// The session after the backward tabulator key: the cursor goes to the end
/// of the field before.
pub open spec fn back_tabbed(app: AppView) -> AppView {
    recurrence_list_opened(
        match app.selected_input_field {
            PopupInputField::Title => field_entered(app, PopupInputField::Recurrence),
            PopupInputField::Time => field_entered(app, PopupInputField::Title),
            PopupInputField::EndDate => field_entered(app, PopupInputField::Time),
            PopupInputField::EndTime => end_date_entered(app),
            PopupInputField::Description => field_entered(app, PopupInputField::EndTime),
            PopupInputField::Recurrence => field_entered(app, PopupInputField::Description),
        },
    )
}

/// Whether the suggestions can be walked through with the arrow keys.
pub open spec fn suggestions_in_use(app: AppView) -> bool {
    app.show_date_suggestions && app.selected_input_field == PopupInputField::EndDate
}

/// The session after an arrow key moved the cursor or the selected
/// suggestion.
pub open spec fn arrow_in_form(app: AppView, key: Key) -> AppView {
    match key {
        Key::Left => if app.cursor_position > 0 {
            AppView { cursor_position: (app.cursor_position - 1) as usize, ..app }
        } else {
            app
        },
        Key::Right => if app.cursor_position < app.current_field().len() {
            AppView { cursor_position: (app.cursor_position + 1) as usize, ..app }
        } else {
            app
        },
        Key::Up => if suggestions_in_use(app) && app.selected_suggestion_index > 0 {
            AppView {
                selected_suggestion_index: (app.selected_suggestion_index - 1) as usize,
                ..app
            }
        } else {
            app
        },
        Key::Down => if suggestions_in_use(app) && app.selected_suggestion_index + 1
            < app.date_suggestions.len() {
            AppView {
                selected_suggestion_index: (app.selected_suggestion_index + 1) as usize,
                ..app
            }
        } else {
            app
        },
        _ => app,
    }
}

/// The time text of the form, brought into the form `HH:MM`.
pub open spec fn form_time_text(app: AppView) -> Seq<char> {
    normalized_time(trimmed(app.popup_event_time))
}

/// The end time text of the form, brought into the form `HH:MM`.
pub open spec fn form_end_time_text(app: AppView) -> Seq<char> {
    normalized_time(trimmed(app.popup_event_end_time))
}

/// Whether the form gives no time, which makes the event last all day.
pub open spec fn form_is_all_day(app: AppView) -> bool {
    trimmed(form_time_text(app)).len() == 0
}

/// What keeps the form from being stored, as the message shown: a blank
/// title, an error left on the end date, an end date that the validator
/// refuses, or a time that could not be read (`start` is what was read from
/// the time text).
pub open spec fn form_problem(app: AppView, start: Option<Time>) -> Option<Seq<char>> {
    if trimmed(app.popup_event_title).len() == 0 {
        Some("Title cannot be empty"@)
    } else if app.date_input_error is Some {
        app.date_input_error
    } else if trimmed(app.popup_event_end_date).len() > 0 && day_month_date(
        trimmed(app.popup_event_end_date),
        app.current_date_for_new_event,
    ) is Err {
        Some(
            day_month_date(
                trimmed(app.popup_event_end_date),
                app.current_date_for_new_event,
            )->Err_0.message(),
        )
    } else if !form_is_all_day(app) && start is None {
        Some("Invalid time format. Use HH:MM"@)
    } else {
        None
    }
}

/// The end day that the form gives for an event that starts on `start`: the
/// start day where the text is blank; otherwise the day and month of the
/// text, in the year of `start` or, where they fall before it, the year
/// after; and none where the text names no day.
pub open spec fn form_end_date(text: Seq<char>, start: Date) -> Option<Date> {
    let inner = trimmed(text);
    if inner.len() == 0 {
        Some(start)
    } else if fields(inner, '/').len() == 2 {
        match (parsed_u32(fields(inner, '/')[0]), parsed_u32(fields(inner, '/')[1])) {
            (Some(day), Some(month)) => {
                let year = if month < start.month || (month == start.month && day < start.day) {
                    start.year + 1
                } else {
                    start.year as int
                };
                if valid_ymd(year, month as int, day as int) {
                    Some(Date { year: year as i32, month, day })
                } else {
                    None
                }
            },
            _ => None,
        }
    } else {
        None
    }
}

/// The event that the form describes. `id` is its identifier, `start` and
/// `end` are what was read from the two time texts, and `lowered` is the
/// recurrence text, trimmed and in lower case.
pub open spec fn form_event(
    app: AppView,
    id: Seq<char>,
    start: Option<Time>,
    end: Option<Time>,
    lowered: Seq<char>,
) -> EventView {
    let time = match start {
        Some(time) => if form_is_all_day(app) {
            Time { hour: 0, minute: 0, second: 0 }
        } else {
            time
        },
        None => Time { hour: 0, minute: 0, second: 0 },
    };
    EventView {
        id,
        date: app.current_date_for_new_event,
        time,
        title: app.popup_event_title,
        description: app.popup_event_description,
        recurrence: recurrence_at(recurrence_index(lowered)),
        is_recurring_instance: false,
        base_date: None,
        start_date: app.current_date_for_new_event,
        end_date: form_end_date(app.popup_event_end_date, app.current_date_for_new_event),
        start_time: time,
        end_time: if trimmed(form_end_time_text(app)).len() == 0 {
            Some(time)
        } else {
            end
        },
        is_all_day: form_is_all_day(app),
    }
}

/// The test that keeps the events which differ from `event`.
pub open spec fn differs_from(event: EventView) -> spec_fn(EventView) -> bool {
    |other: EventView| other != event
}

/// The effect of pushing in the background, where a provider is set.
pub open spec fn background_push(app: AppView) -> Seq<EffectView> {
    match app.sync_provider {
        Some(provider) => seq![EffectView::PushInBackground(provider.remote_url)],
        None => Seq::empty(),
    }
}

/// Storing the form. Where something keeps it from being stored, the message
/// is shown and nothing else changes. Otherwise the event that the form
/// describes joins the events, in place of the event being edited if there
/// is one; the form closes and its fields other than the time are emptied;
/// the list of the day's events, where it is open behind the form, is made
/// anew; and the cache is emptied. The caller is left to remove the file of
/// the replaced event, to push, and to store the new event.
pub open spec fn submission(
    app: AppView,
    id: Seq<char>,
    start: Option<Time>,
    end: Option<Time>,
    lowered: Seq<char>,
) -> Step {
    match form_problem(app, start) {
        Some(message) => quiet(AppView { error_message: message, ..app }),
        None => {
            let event = form_event(app, id, start, end, lowered);
            let replaced = if app.is_editing {
                app.event_being_edited
            } else {
                None
            };
            let kept = match replaced {
                Some(old) => app.events.filter(differs_from(old)),
                None => app.events,
            };
            let stored = AppView {
                events: kept.push(event),
                popup_event_end_date: Seq::empty(),
                popup_event_end_time: Seq::empty(),
                popup_event_title: Seq::empty(),
                popup_event_recurrence: Seq::empty(),
                popup_event_description: Seq::empty(),
                is_editing: false,
                event_being_edited: None,
                ..app
            };
            let shown = if app.show_view_events_popup {
                AppView {
                    events_to_display_in_popup: day_listing(stored),
                    selected_event_index: 0,
                    input_mode: InputMode::ViewEventsPopup,
                    ..stored
                }
            } else {
                AppView { input_mode: InputMode::Normal, ..stored }
            };
            Step {
                app: AppView {
                    show_add_event_popup: false,
                    cache: CacheView { window: None, instances: Seq::empty() },
                    ..shown
                },
                keep_running: true,
                effects: (match replaced {
                    Some(old) => seq![EffectView::RemoveEvent(old)] + background_push(app),
                    None => Seq::empty(),
                }) + seq![EffectView::StoreEvent(event)],
            }
        },
    }
}

/// A key in the event form, other than the one that stores it.
pub open spec fn form_step(app: AppView, key: Key) -> AppView {
    match key {
        Key::Char(c) => char_typed(app, c),
        Key::Backspace => char_erased(app),
        Key::Esc => form_cancelled(app),
        Key::Tab => tabbed(app),
        Key::BackTab => back_tabbed(app),
        Key::Left | Key::Right | Key::Up | Key::Down => arrow_in_form(app, key),
        _ => app,
    }
}

/// A key in the list of recurrences.
pub open spec fn recurrence_step(app: AppView, key: Key) -> AppView {
    match key {
        Key::Up | Key::Char('k') => if app.selected_recurrence_index > 0 {
            AppView {
                selected_recurrence_index: (app.selected_recurrence_index - 1) as usize,
                ..app
            }
        } else {
            app
        },
        Key::Down | Key::Char('j') => if app.selected_recurrence_index < 4 {
            AppView {
                selected_recurrence_index: (app.selected_recurrence_index + 1) as usize,
                ..app
            }
        } else {
            app
        },
        Key::Enter => AppView {
            popup_event_recurrence: recurrence_name(
                recurrence_at(app.selected_recurrence_index as int),
            ),
            input_mode: InputMode::EditingEventPopup,
            selected_input_field: PopupInputField::Recurrence,
            ..app
        },
        Key::Esc => AppView {
            input_mode: InputMode::EditingEventPopup,
            selected_input_field: PopupInputField::Recurrence,
            ..app
        },
        _ => app,
    }
}

/// The event that editing or deleting the entry `chosen` of the list works
/// on: its base event where it is an occurrence that has one among the
/// events, and itself otherwise.
pub open spec fn event_behind(chosen: EventView, events: Seq<EventView>) -> EventView {
    match base_event_of(chosen, events) {
        Some(base) => base,
        None => chosen,
    }
}

/// The session with the event form open on the selected entry of the list.
/// Nothing happens where no entry is selected, or where the entry's day is
/// no day that exists.
pub open spec fn edit_opened(app: AppView) -> AppView {
    if app.selected_event_index < app.events_to_display_in_popup.len() && event_behind(
        app.events_to_display_in_popup[app.selected_event_index as int],
        app.events,
    ).date.is_valid() {
        let event = event_behind(
            app.events_to_display_in_popup[app.selected_event_index as int],
            app.events,
        );
        AppView {
            popup_event_title: event.title,
            popup_event_time: clock_text(event.time),
            popup_event_end_date: match event.end_date {
                Some(end) => short_date_text(end),
                None => Seq::empty(),
            },
            popup_event_end_time: match event.end_time {
                Some(end) => clock_text(end),
                None => Seq::empty(),
            },
            popup_event_recurrence: recurrence_name(event.recurrence),
            popup_event_description: event.description,
            current_date_for_new_event: event.date,
            is_editing: true,
            event_being_edited: Some(event),
            show_add_event_popup: true,
            input_mode: InputMode::EditingEventPopup,
            selected_input_field: PopupInputField::Title,
            cursor_position: event.title.len() as usize,
            ..app
        }
    } else {
        app
    }
}

/// A key in the list of the day's events.
pub open spec fn list_step(app: AppView, key: Key) -> AppView {
    let count = app.events_to_display_in_popup.len();
    match key {
        Key::Esc => AppView {
            show_view_events_popup: false,
            events_to_display_in_popup: Seq::empty(),
            selected_event_index: 0,
            event_to_delete_index: None,
            input_mode: InputMode::Normal,
            ..app
        },
        Key::Up | Key::Char('k') => if count == 0 {
            app
        } else if app.selected_event_index == 0 {
            AppView { selected_event_index: (count - 1) as usize, ..app }
        } else {
            AppView { selected_event_index: (app.selected_event_index - 1) as usize, ..app }
        },
        Key::Down | Key::Char('j') => if count == 0 {
            app
        } else if app.selected_event_index >= count - 1 {
            AppView { selected_event_index: 0, ..app }
        } else {
            AppView { selected_event_index: (app.selected_event_index + 1) as usize, ..app }
        },
        Key::Char('e') => edit_opened(app),
        Key::Char('a') => add_popup_opened(app),
        Key::Char('d') | Key::Delete => if count > 0 {
            AppView {
                event_to_delete_index: Some(app.selected_event_index),
                input_mode: InputMode::DeleteConfirmation,
                ..app
            }
        } else {
            app
        },
        _ => app,
    }
}

/// The test that keeps the events outside the series of `base`: those with
/// another title, and those with its title that are neither occurrences nor
/// `base` itself.
pub open spec fn outside_series(base: EventView) -> spec_fn(EventView) -> bool {
    |event: EventView| !(event.title == base.title && (event.is_recurring_instance || event == base))
}

/// The test that keeps the entries with a title other than `title`.
pub open spec fn titled_otherwise(title: Seq<char>) -> spec_fn(EventView) -> bool {
    |event: EventView| event.title != title
}

/// The series that deleting the entry `chosen` deletes: that of its base
/// event where it is an occurrence, its own where it repeats, and none where
/// it is a single event.
pub open spec fn series_of(chosen: EventView, events: Seq<EventView>) -> Option<EventView> {
    if chosen.is_recurring_instance {
        base_event_of(chosen, events)
    } else if chosen.recurrence != Recurrence::Never {
        Some(chosen)
    } else {
        None
    }
}

/// The selected index brought back into a list of `count` entries.
pub open spec fn index_within(index: usize, count: nat) -> usize {
    if index >= count {
        if count == 0 {
            0
        } else {
            (count - 1) as usize
        }
    } else {
        index
    }
}

/// The deletion that was asked for, confirmed. Where the entry belongs to a
/// series, the whole series goes: its base event, every occurrence with its
/// title, the cached occurrences of the base event, and every entry of the
/// list with that title. Otherwise the entry alone goes. The caller is left
/// to remove the stored file and to push.
pub open spec fn deletion_confirmed(app: AppView) -> Step {
    let back = AppView {
        event_to_delete_index: None,
        input_mode: InputMode::ViewEventsPopup,
        ..app
    };
    match app.event_to_delete_index {
        Some(index) => if index < app.events_to_display_in_popup.len() {
            let chosen = app.events_to_display_in_popup[index as int];
            match series_of(chosen, app.events) {
                Some(base) => {
                    let listed = app.events_to_display_in_popup.filter(titled_otherwise(base.title));
                    Step {
                        app: AppView {
                            events: app.events.filter(outside_series(base)),
                            cache: cache_after_invalidate(app.cache, Some(base)),
                            events_to_display_in_popup: listed,
                            selected_event_index: index_within(
                                app.selected_event_index,
                                listed.len(),
                            ),
                            ..back
                        },
                        keep_running: true,
                        effects: seq![EffectView::RemoveEvent(base)] + background_push(app),
                    }
                },
                None => {
                    let listed = app.events_to_display_in_popup.remove(index as int);
                    Step {
                        app: AppView {
                            events: app.events.filter(differs_from(chosen)),
                            cache: cache_after_invalidate(app.cache, Some(chosen)),
                            events_to_display_in_popup: listed,
                            selected_event_index: index_within(
                                app.selected_event_index,
                                listed.len(),
                            ),
                            ..back
                        },
                        keep_running: true,
                        effects: (if chosen.is_recurring_instance {
                            Seq::empty()
                        } else {
                            seq![EffectView::RemoveEvent(chosen)]
                        }) + background_push(app),
                    }
                },
            }
        } else {
            quiet(back)
        },
        None => quiet(back),
    }
}

/// A key while a deletion waits to be confirmed.
pub open spec fn confirmation_step(app: AppView, key: Key) -> Step {
    match key {
        Key::Char('y') => deletion_confirmed(app),
        Key::Char('n') | Key::Esc => quiet(
            AppView { event_to_delete_index: None, input_mode: InputMode::ViewEventsPopup, ..app },
        ),
        _ => quiet(app),
    }
}

/// A key on the synchronisation screen.
pub open spec fn sync_step(app: AppView, key: Key) -> Step {
    match key {
        Key::Char('f') => Step {
            app,
            keep_running: true,
            effects: if app.sync_provider is Some {
                seq![EffectView::Pull]
            } else {
                Seq::empty()
            },
        },
        Key::Char('p') => Step {
            app,
            keep_running: true,
            effects: if app.sync_provider is Some {
                seq![EffectView::Push]
            } else {
                Seq::empty()
            },
        },
        Key::Esc => quiet(
            AppView {
                input_mode: InputMode::Normal,
                sync_message: Seq::empty(),
                sync_status: None,
                ..app
            },
        ),
        _ => quiet(app),
    }
}

/// What a key leads to. `id` is the identifier for an event that the key may
/// create.
pub open spec fn step(app: AppView, key: Key, id: Seq<char>) -> Step {
    match app.input_mode {
        InputMode::Normal => normal_step(app, key),
        InputMode::EditingEventPopup => if key == Key::Enter {
            submission(
                app,
                id,
                clock_time_of(form_time_text(app)),
                clock_time_of(form_end_time_text(app)),
                lowercase_of(trimmed(app.popup_event_recurrence)),
            )
        } else {
            quiet(form_step(app, key))
        },
        InputMode::SelectingRecurrence => quiet(recurrence_step(app, key)),
        InputMode::ViewEventsPopup => quiet(list_step(app, key)),
        InputMode::DeleteConfirmation => confirmation_step(app, key),
        InputMode::Sync => sync_step(app, key),
    }
}

/// The message that the synchronisation screen shows for a status.
pub open spec fn status_message(status: StatusView) -> Seq<char> {
    match status {
        StatusView::UpToDate => Seq::empty(),
        StatusView::Ahead => "Ahead of remote"@,
        StatusView::Behind => "Behind remote"@,
        StatusView::Conflicts => "Conflicts detected"@,
        StatusView::Error(text) => "Status error: "@ + text,
    }
}

/// The session after the status against the remote was reported, or failed
/// to be.
pub open spec fn after_status(app: AppView, report: Result<StatusView, Seq<char>>) -> AppView {
    match report {
        Ok(status) => AppView {
            sync_message: status_message(status),
            sync_status: Some(status),
            ..app
        },
        Err(text) => AppView {
            sync_message: "Status failed: "@ + text,
            sync_status: Some(StatusView::Error(text)),
            ..app
        },
    }
}

/// The session after a pull or a push ended. `done` is the message of
/// success and `failed` the beginning of the message of failure.
pub open spec fn after_transfer(
    app: AppView,
    outcome: Result<StatusView, Seq<char>>,
    done: Seq<char>,
    failed: Seq<char>,
) -> AppView {
    match outcome {
        Ok(status) => AppView { sync_message: done, sync_status: Some(status), ..app },
        Err(text) => AppView {
            sync_message: failed + text,
            sync_status: Some(StatusView::Error(text)),
            ..app
        },
    }
}

/// The session after its events were loaded again: it holds the loaded
/// events and an empty cache.
pub open spec fn after_reload(app: AppView, events: Seq<EventView>) -> AppView {
    AppView { events, cache: CacheView { window: None, instances: Seq::empty() }, ..app }
}

/// Opening the list of the selected day a second time, after it was closed
/// and with nothing changed in between, shows the same entries in the same
/// order and leaves the cache as the first opening left it.
pub proof fn lemma_day_listing_repeats(app: AppView)
    ensures
        ({
            let first = events_popup_opened(app);
            let closed = list_step(first, Key::Esc);
            let second = events_popup_opened(closed);
            &&& second.events_to_display_in_popup == first.events_to_display_in_popup
            &&& second.cache == first.cache
            &&& second.cache.window == first.cache.window
        }),
{
    let first = events_popup_opened(app);
    let closed = list_step(first, Key::Esc);
    assert(closed.events == app.events);
    assert(closed.date == app.date);
    assert(closed.cache == cache_after_listing(app));
    assert(day_can_be_listed(closed) == day_can_be_listed(app));
    crate::cache::lemma_query_idempotent(app.cache, app.events, app.date, app.date);
}

/// Opens the empty event form for a new event on the selected day.
fn open_add_popup(app: &mut App)
    requires
        old(app)@.is_valid(),
    ensures
        final(app)@ == add_popup_opened(old(app)@),
        final(app)@.is_valid(),
{
    app.show_add_event_popup = true;
    app.input_mode = InputMode::EditingEventPopup;
    app.current_date_for_new_event = app.date;
    app.popup_event_title = String::new();
    app.popup_event_time = String::new();
    app.popup_event_end_date = String::new();
    app.popup_event_end_time = String::new();
    app.popup_event_recurrence = String::new();
    app.popup_event_description = String::new();
    app.input = String::new();
    app.selected_input_field = PopupInputField::Title;
    app.cursor_position = 0;
    app.is_editing = false;
    app.event_being_edited = None;
    app.date_input_error = None;
    app.date_suggestions = Vec::new();
    app.show_date_suggestions = false;
    assert(app@ =~~= add_popup_opened(old(app)@));
}

/// Moves the selected day by `days`.
fn move_day(app: &mut App, days: i64)
    requires
        old(app)@.is_valid(),
    ensures
        final(app)@ == day_moved(old(app)@, days as int),
        final(app)@.is_valid(),
{
    match app.date.checked_add_days(days) {
        Some(moved) => {
            proof {
                lemma_plus_days(app.date, days as int, moved);
            }
            app.date = moved;
        },
        None => {},
    }
    app.adjust_view_boundaries();
}

/// Whether `event` takes place on `day`.
fn event_covers(event: &CalendarEvent, day: Date) -> (takes_place: bool)
    ensures
        takes_place == covers(day)(event@),
{
    match event.end_date {
        Some(end) => event.start_date.is_on_or_before(day) && day.is_on_or_before(end),
        None => event.start_date == day,
    }
}

/// The events and occurrences that take place on the selected day, in order
/// of their time.
fn list_day(app: &mut App) -> (listing: Vec<CalendarEvent>)
    requires
        old(app)@.is_valid(),
    ensures
        final(app)@ == (AppView { cache: cache_after_listing(old(app)@), ..old(app)@ }),
        views(listing@) == day_listing(old(app)@),
{
    if !InstanceCache::can_query(&app.events, app.date, app.date) {
        let listing: Vec<CalendarEvent> = Vec::new();
        assert(views(listing@) =~= Seq::<EventView>::empty());
        assert(app@ =~~= (AppView { cache: cache_after_listing(old(app)@), ..old(app)@ }));
        return listing;
    }
    let day = app.date;
    let all = app.cache.query(&app.events, day, day);
    let on_day = retain_events(&all, &Criterion::OnDay(day));
    assert(app@ =~~= (AppView { cache: cache_after_listing(old(app)@), ..old(app)@ }));
    sort_events(SortKey::Time, &on_day)
}

/// Opens the list of the selected day's events.
fn open_events_popup(app: &mut App)
    requires
        old(app)@.is_valid(),
    ensures
        final(app)@ == events_popup_opened(old(app)@),
        final(app)@.is_valid(),
{
    app.show_view_events_popup = true;
    let listing = list_day(app);
    app.events_to_display_in_popup = listing;
    app.selected_event_index = 0;
    app.input_mode = InputMode::ViewEventsPopup;
    assert(app@ =~~= events_popup_opened(old(app)@));
}

/// An outcome that lets the session go on and leaves nothing to the caller.
fn nothing_to_do() -> (outcome: Outcome)
    ensures
        outcome.keep_running,
        effect_views(outcome.effects@) == Seq::<EffectView>::empty(),
{
    let outcome = Outcome { keep_running: true, effects: Vec::new() };
    assert(effect_views(outcome.effects@) =~= Seq::<EffectView>::empty());
    outcome
}

/// An outcome that lets the session go on and leaves one thing to the
/// caller.
fn one_effect(effect: Effect) -> (outcome: Outcome)
    ensures
        outcome.keep_running,
        effect_views(outcome.effects@) == seq![effect@],
{
    let mut effects: Vec<Effect> = Vec::new();
    effects.push(effect);
    assert(effect_views(effects@) =~= seq![effect@]);
    Outcome { keep_running: true, effects }
}

/// Handles a key in the calendar itself.
fn handle_normal_key(app: &mut App, key: Key) -> (outcome: Outcome)
    requires
        old(app)@.is_valid(),
    ensures
        final(app)@ == normal_step(old(app)@, key).app,
        outcome.keep_running == normal_step(old(app)@, key).keep_running,
        effect_views(outcome.effects@) == normal_step(old(app)@, key).effects,
        final(app)@.is_valid(),
{
    match key {
        Key::Char('q') => {
            let outcome = Outcome { keep_running: false, effects: Vec::new() };
            assert(effect_views(outcome.effects@) =~= Seq::<EffectView>::empty());
            return outcome;
        },
        Key::Char('a') => {
            open_add_popup(app);
        },
        Key::Left | Key::Char('h') => {
            move_day(app, -1);
        },
        Key::Right | Key::Char('l') => {
            move_day(app, 1);
        },
        Key::Up | Key::Char('k') => {
            move_day(app, -7);
        },
        Key::Down | Key::Char('j') => {
            move_day(app, 7);
        },
        Key::Char('o') => {
            open_events_popup(app);
        },
        Key::Char('s') => {
            if app.sync_provider.is_some() {
                app.input_mode = InputMode::Sync;
                app.sync_message = String::new();
                app.sync_status = None;
                assert(app@ =~~= sync_opened(old(app)@).app);
                return one_effect(Effect::CheckStatus);
            }
        },
        _ => {},
    }
    nothing_to_do()
}

/// Judges the end date field anew.
fn judge_end_date(app: &mut App)
    requires
        old(app)@.is_valid(),
    ensures
        final(app)@ == end_date_judged(old(app)@),
        final(app)@.is_valid(),
{
    let typed = chars_of(app.popup_event_end_date.as_str());
    let inner = trim(&typed);
    let start = app.current_date_for_new_event;
    match check_day_month(&inner, start) {
        Ok(_) => {
            app.date_input_error = None;
            if start.year < MAX_YEAR {
                let lowered_text = app.popup_event_end_date.as_str().to_lowercase();
                let lowered = chars_of(lowered_text.as_str());
                app.date_suggestions = suggest_from_text(&typed, &lowered, start, start);
            } else {
                app.date_suggestions = Vec::new();
            }
            app.show_date_suggestions = app.date_suggestions.len() > 0;
            app.selected_suggestion_index = 0;
        },
        Err(reason) => {
            app.date_input_error = Some(reason.to_message());
            app.date_suggestions = Vec::new();
            app.show_date_suggestions = false;
            app.selected_suggestion_index = 0;
        },
    }
    assert(app@ =~~= end_date_judged(old(app)@));
}

/// Puts `text` into the field that has the cursor and the cursor at
/// `cursor`, and judges the end date anew where it was the field.
fn finish_edit(app: &mut App, text: String, cursor: usize)
    requires
        old(app)@.is_valid(),
    ensures
        final(app)@ == after_edit(
            AppView { cursor_position: cursor, ..old(app)@.with_current_field(text@) },
        ),
        final(app)@.is_valid(),
{
    app.set_current_field(text);
    app.cursor_position = cursor;
    if app.selected_input_field == PopupInputField::EndDate {
        judge_end_date(app);
    }
}

/// Takes a typed character into the field that has the cursor.
fn type_char(app: &mut App, c: char)
    requires
        old(app)@.is_valid(),
    ensures
        final(app)@ == char_typed(old(app)@, c),
        final(app)@.is_valid(),
{
    if app.selected_input_field == PopupInputField::Recurrence {
        return ;
    }
    let mut text = chars_of(app.get_current_field());
    if app.cursor_position <= text.len() {
        text.insert(app.cursor_position, c);
    } else {
        text.push(c);
    }
    let cursor: usize = if app.cursor_position < usize::MAX {
        app.cursor_position + 1
    } else {
        app.cursor_position
    };
    finish_edit(app, string_of(&text), cursor);
}

/// Erases the character before the cursor.
fn erase_char(app: &mut App)
    requires
        old(app)@.is_valid(),
    ensures
        final(app)@ == char_erased(old(app)@),
        final(app)@.is_valid(),
{
    if app.cursor_position == 0 {
        return ;
    }
    let mut text = chars_of(app.get_current_field());
    let at: usize = app.cursor_position - 1;
    if at < text.len() {
        text.remove(at);
    }
    finish_edit(app, string_of(&text), at);
}

/// Gives the event form up.
fn cancel_form(app: &mut App)
    requires
        old(app)@.is_valid(),
    ensures
        final(app)@ == form_cancelled(old(app)@),
        final(app)@.is_valid(),
{
    app.show_add_event_popup = false;
    app.popup_event_title = String::new();
    app.popup_event_time = String::new();
    app.popup_event_end_date = String::new();
    app.popup_event_end_time = String::new();
    app.popup_event_description = String::new();
    app.popup_event_recurrence = String::new();
    app.input = String::new();
    app.is_editing = false;
    app.event_being_edited = None;
    if app.show_view_events_popup {
        app.input_mode = InputMode::ViewEventsPopup;
    } else {
        app.input_mode = InputMode::Normal;
    }
    assert(app@ =~~= form_cancelled(old(app)@));
}

/// Puts the cursor at the end of `field`.
fn enter_field(app: &mut App, field: PopupInputField)
    requires
        old(app)@.is_valid(),
    ensures
        final(app)@ == field_entered(old(app)@, field),
        final(app)@.is_valid(),
{
    app.selected_input_field = field;
    app.cursor_position = app.get_current_field_char_count();
}

/// Puts the cursor at the end of the end date field and clears its error
/// and suggestions.
fn enter_end_date(app: &mut App)
    requires
        old(app)@.is_valid(),
    ensures
        final(app)@ == end_date_entered(old(app)@),
        final(app)@.is_valid(),
{
    enter_field(app, PopupInputField::EndDate);
    app.date_input_error = None;
    app.date_suggestions = Vec::new();
    app.show_date_suggestions = false;
    assert(app@ =~~= end_date_entered(old(app)@));
}

/// The date that a suggestion proposes: what its label holds in brackets, or
/// the whole label.
pub fn date_of_suggestion(label: &Vec<char>) -> (date: Vec<char>)
    ensures
        date@ == proposed_date(label@),
{
    assert(label@.skip(0) == label@);
    let open: usize = crate::text::find_from(label, 0, '(');
    if open < label.len() {
        let close: usize = crate::text::find_from(label, open + 1, ')');
        let date = slice_of(label, open + 1, close);
        assert(date@ =~= label@.skip(open + 1).take(close - (open + 1)));
        date
    } else {
        slice_of(label, 0, label.len())
    }
}

/// Takes the selected suggestion over into the end date field.
fn accept_suggestion(app: &mut App)
    requires
        old(app)@.is_valid(),
        old(app)@.date_suggestions.len() > 0,
    ensures
        final(app)@ == suggestion_accepted(old(app)@),
        final(app)@.is_valid(),
{
    let index: usize = if app.selected_suggestion_index < app.date_suggestions.len() {
        app.selected_suggestion_index
    } else {
        0
    };
    assert(suggestion_views(app.date_suggestions@)[index as int].0
        == app.date_suggestions@[index as int].0@);
    let label = chars_of(app.date_suggestions[index].0.as_str());
    let date = date_of_suggestion(&label);
    app.cursor_position = date.len();
    app.popup_event_end_date = string_of(&date);
    app.date_input_error = None;
    app.show_date_suggestions = false;
    app.selected_input_field = PopupInputField::EndDate;
    assert(app@ =~~= suggestion_accepted(old(app)@));
}

/// Opens the recurrence list where the recurrence field has the cursor.
fn open_recurrence_list(app: &mut App)
    requires
        old(app)@.is_valid(),
    ensures
        final(app)@ == recurrence_list_opened(old(app)@),
        final(app)@.is_valid(),
{
    if app.selected_input_field == PopupInputField::Recurrence {
        app.input_mode = InputMode::SelectingRecurrence;
        app.selected_recurrence_index = recurrence_str_to_index(app.popup_event_recurrence.as_str());
    }
}

/// Handles the tabulator key in the event form.
fn tab_forward(app: &mut App)
    requires
        old(app)@.is_valid(),
    ensures
        final(app)@ == tabbed(old(app)@),
        final(app)@.is_valid(),
{
    match app.selected_input_field {
        PopupInputField::Title => enter_field(app, PopupInputField::Time),
        PopupInputField::Time => enter_end_date(app),
        PopupInputField::EndDate => {
            if app.show_date_suggestions && app.date_suggestions.len() > 0 {
                assert(suggestion_views(app.date_suggestions@).len() == app.date_suggestions@.len());
                accept_suggestion(app);
            } else {
                assert(suggestion_views(app.date_suggestions@).len() == app.date_suggestions@.len());
                enter_field(app, PopupInputField::EndTime);
            }
        },
        PopupInputField::EndTime => enter_field(app, PopupInputField::Description),
        PopupInputField::Description => enter_field(app, PopupInputField::Recurrence),
        PopupInputField::Recurrence => enter_field(app, PopupInputField::Title),
    }
    open_recurrence_list(app);
}

/// Handles the backward tabulator key in the event form.
fn tab_backward(app: &mut App)
    requires
        old(app)@.is_valid(),
    ensures
        final(app)@ == back_tabbed(old(app)@),
        final(app)@.is_valid(),
{
    match app.selected_input_field {
        PopupInputField::Title => enter_field(app, PopupInputField::Recurrence),
        PopupInputField::Time => enter_field(app, PopupInputField::Title),
        PopupInputField::EndDate => enter_field(app, PopupInputField::Time),
        PopupInputField::EndTime => enter_end_date(app),
        PopupInputField::Description => enter_field(app, PopupInputField::EndTime),
        PopupInputField::Recurrence => enter_field(app, PopupInputField::Description),
    }
    open_recurrence_list(app);
}

/// Handles an arrow key in the event form.
fn move_in_form(app: &mut App, key: Key)
    requires
        old(app)@.is_valid(),
    ensures
        final(app)@ == arrow_in_form(old(app)@, key),
        final(app)@.is_valid(),
{
    let in_use = app.show_date_suggestions && app.selected_input_field == PopupInputField::EndDate;
    assert(suggestion_views(app.date_suggestions@).len() == app.date_suggestions@.len());
    match key {
        Key::Left => {
            if app.cursor_position > 0 {
                app.cursor_position = app.cursor_position - 1;
            }
        },
        Key::Right => {
            if app.cursor_position < app.get_current_field_char_count() {
                app.cursor_position = app.cursor_position + 1;
            }
        },
        Key::Up => {
            if in_use && app.selected_suggestion_index > 0 {
                app.selected_suggestion_index = app.selected_suggestion_index - 1;
            }
        },
        Key::Down => {
            if in_use && app.selected_suggestion_index < app.date_suggestions.len()
                && app.selected_suggestion_index + 1 < app.date_suggestions.len() {
                app.selected_suggestion_index = app.selected_suggestion_index + 1;
            }
        },
        _ => {},
    }
}

/// Handles a key in the event form, other than the one that stores it.
fn handle_form_key(app: &mut App, key: Key)
    requires
        old(app)@.is_valid(),
    ensures
        final(app)@ == form_step(old(app)@, key),
        final(app)@.is_valid(),
{
    match key {
        Key::Char(c) => type_char(app, c),
        Key::Backspace => erase_char(app),
        Key::Esc => cancel_form(app),
        Key::Tab => tab_forward(app),
        Key::BackTab => tab_backward(app),
        Key::Left | Key::Right | Key::Up | Key::Down => move_in_form(app, key),
        _ => {},
    }
}

/// A test by which events are kept in a list.
pub enum Criterion {
    /// Keep the events that differ from this one.
    Differing(CalendarEvent),
    /// Keep the events outside the series of this base event.
    OutsideSeries(CalendarEvent),
    /// Keep the events with a title other than this one.
    TitledOtherwise(String),
    /// Keep the events that take place on this day.
    OnDay(Date),
}

impl Criterion {
    /// The test that the criterion stands for.
    pub open spec fn test(self) -> spec_fn(EventView) -> bool {
        match self {
            Criterion::Differing(event) => differs_from(event@),
            Criterion::OutsideSeries(base) => outside_series(base@),
            Criterion::TitledOtherwise(title) => titled_otherwise(title@),
            Criterion::OnDay(day) => covers(day),
        }
    }

    /// Whether `event` passes the test.
    pub fn passes(&self, event: &CalendarEvent) -> (kept: bool)
        ensures
            kept == (self.test())(event@),
    {
        match self {
            Criterion::Differing(other) => !same_event(event, other),
            Criterion::OutsideSeries(base) => !(event.title == base.title && (
            event.is_recurring_instance || same_event(event, base))),
            Criterion::TitledOtherwise(title) => !(event.title == *title),
            Criterion::OnDay(day) => event_covers(event, *day),
        }
    }
}

/// Copies of the events that pass the test, in their order.
pub fn retain_events(events: &Vec<CalendarEvent>, criterion: &Criterion) -> (kept: Vec<
    CalendarEvent,
>)
    ensures
        views(kept@) == views(events@).filter(criterion.test()),
{
    let mut kept: Vec<CalendarEvent> = Vec::new();
    let mut i: usize = 0;
    let ghost all = views(events@);
    proof {
        reveal(Seq::filter);
        assert(all.take(0) =~= Seq::<EventView>::empty());
        assert(views(kept@) =~= Seq::<EventView>::empty());
        assert(Seq::<EventView>::empty().filter(criterion.test()) =~= Seq::<EventView>::empty());
    }
    while i < events.len()
        invariant
            i <= events.len(),
            all == views(events@),
            views(kept@) == all.take(i as int).filter(criterion.test()),
        decreases events.len() - i,
    {
        proof {
            assert(all.take(i + 1) =~= all.take(i as int).push(events@[i as int]@));
            all.take(i as int).lemma_filter_push(events@[i as int]@, criterion.test());
        }
        if criterion.passes(&events[i]) {
            kept.push(events[i].clone());
            assert(views(kept@) =~= all.take(i as int).filter(criterion.test()).push(
                events@[i as int]@,
            ));
        }
        i += 1;
    }
    assert(all.take(events.len() as int) =~= all);
    kept
}

/// Whether a text is empty or white space alone.
fn is_blank(text: &str) -> (blank: bool)
    ensures
        blank == (trimmed(text@).len() == 0),
{
    trim(&chars_of(text)).len() == 0
}

/// A text without the white space around it, brought into the form `HH:MM`.
fn normal_time_of(text: &str) -> (normal: Vec<char>)
    ensures
        normal@ == normalized_time(trimmed(text@)),
{
    normalize_time_text(&trim(&chars_of(text)))
}

/// What keeps the form from being stored, as the message shown.
fn find_form_problem(app: &App, start: Option<Time>) -> (problem: Option<String>)
    requires
        app@.is_valid(),
    ensures
        problem matches Some(message) ==> form_problem(app@, start) == Some(message@),
        problem is None ==> form_problem(app@, start) is None,
{
    if is_blank(app.popup_event_title.as_str()) {
        return Some(String::from_str("Title cannot be empty"));
    }
    if let Some(message) = &app.date_input_error {
        return Some(message.clone());
    }
    let end_date = trim(&chars_of(app.popup_event_end_date.as_str()));
    if end_date.len() > 0 {
        if let Err(reason) = check_day_month(&end_date, app.current_date_for_new_event) {
            return Some(reason.to_message());
        }
    }
    let time_text = normal_time_of(app.popup_event_time.as_str());
    let all_day = trim(&time_text).len() == 0;
    if !all_day && start.is_none() {
        return Some(String::from_str("Invalid time format. Use HH:MM"));
    }
    None
}

/// The end day that the form gives for an event that starts on `start`.
pub fn read_form_end_date(text: &str, start: Date) -> (end: Option<Date>)
    requires
        start.is_valid(),
    ensures
        end == form_end_date(text@, start),
{
    let inner = trim(&chars_of(text));
    if inner.len() == 0 {
        return Some(start);
    }
    let parts = split(&inner, '/');
    assert(texts(parts@).len() == parts@.len());
    if parts.len() != 2 {
        return None;
    }
    assert(texts(parts@)[0] == parts@[0]@);
    assert(texts(parts@)[1] == parts@[1]@);
    match (parse_u32(&parts[0]), parse_u32(&parts[1])) {
        (Some(day), Some(month)) => {
            let year: i32 = if month < start.month || (month == start.month && day < start.day) {
                start.year + 1
            } else {
                start.year
            };
            Date::from_ymd_opt(year, month, day)
        },
        _ => None,
    }
}

/// The event that the form describes.
fn build_form_event(
    app: &App,
    id: String,
    start: Option<Time>,
    end: Option<Time>,
    lowered: &Vec<char>,
) -> (event: CalendarEvent)
    requires
        app@.is_valid(),
    ensures
        event@ == form_event(app@, id@, start, end, lowered@),
{
    let all_day = trim(&normal_time_of(app.popup_event_time.as_str())).len() == 0;
    let time = match start {
        Some(time) => if all_day {
            Time::midnight()
        } else {
            time
        },
        None => Time::midnight(),
    };
    let end_blank = trim(&normal_time_of(app.popup_event_end_time.as_str())).len() == 0;
    CalendarEvent {
        id,
        date: app.current_date_for_new_event,
        time,
        title: app.popup_event_title.clone(),
        description: app.popup_event_description.clone(),
        recurrence: recurrence_from_index(recurrence_index_of(lowered)),
        is_recurring_instance: false,
        base_date: None,
        start_date: app.current_date_for_new_event,
        end_date: read_form_end_date(
            app.popup_event_end_date.as_str(),
            app.current_date_for_new_event,
        ),
        start_time: time,
        end_time: if end_blank {
            Some(time)
        } else {
            end
        },
        is_all_day: all_day,
    }
}

/// Appends the push in the background to `effects`, where a provider is set.
fn push_background_push(app: &App, effects: &mut Vec<Effect>)
    ensures
        effect_views(final(effects)@) == effect_views(old(effects)@) + background_push(app@),
{
    match &app.sync_provider {
        Some(provider) => {
            let effect = Effect::PushInBackground(provider.remote_url.clone());
            effects.push(effect);
            assert(effect_views(effects@) =~= effect_views(old(effects)@) + seq![effect@]);
        },
        None => {
            assert(effect_views(effects@) =~= effect_views(old(effects)@) + Seq::<
                EffectView,
            >::empty());
        },
    }
}

/// Stores the form, or shows what keeps it from being stored. `id` is the
/// identifier for the new event, `start` and `end` are what was read from
/// the form's two time texts, and `lowered` is the form's recurrence text
/// without white space around it and in lower case.
pub fn submit_form(
    app: &mut App,
    id: String,
    start: Option<Time>,
    end: Option<Time>,
    lowered: &Vec<char>,
) -> (outcome: Outcome)
    requires
        old(app)@.is_valid(),
    ensures
        final(app)@ == submission(old(app)@, id@, start, end, lowered@).app,
        outcome.keep_running,
        effect_views(outcome.effects@) == submission(old(app)@, id@, start, end, lowered@).effects,
        final(app)@.is_valid(),
{
    if let Some(message) = find_form_problem(app, start) {
        app.error_message = message;
        return nothing_to_do();
    }
    let event = build_form_event(app, id, start, end, lowered);
    let mut effects: Vec<Effect> = Vec::new();
    assert(effect_views(effects@) =~= Seq::<EffectView>::empty());
    let replaced: Option<CalendarEvent> = if app.is_editing {
        match &app.event_being_edited {
            Some(old) => Some(old.clone()),
            None => None,
        }
    } else {
        None
    };
    if let Some(old) = replaced {
        let effect = Effect::RemoveEvent(old.clone());
        let criterion = Criterion::Differing(old);
        app.events = retain_events(&app.events, &criterion);
        effects.push(effect);
        assert(effect_views(effects@) =~= seq![effect@]);
        push_background_push(app, &mut effects);
    }
    let ghost before = effect_views(effects@);
    let ghost kept = views(app.events@);
    let stored = Effect::StoreEvent(event.clone());
    effects.push(stored);
    assert(effect_views(effects@) =~= before + seq![stored@]);
    app.events.push(event);
    assert(views(app.events@) =~= kept.push(event@));
    app.popup_event_end_date = String::new();
    app.popup_event_end_time = String::new();
    app.popup_event_title = String::new();
    app.popup_event_recurrence = String::new();
    app.popup_event_description = String::new();
    app.is_editing = false;
    app.event_being_edited = None;
    if app.show_view_events_popup {
        let listing = list_day(app);
        app.events_to_display_in_popup = listing;
        app.selected_event_index = 0;
        app.input_mode = InputMode::ViewEventsPopup;
    } else {
        app.input_mode = InputMode::Normal;
    }
    app.show_add_event_popup = false;
    app.invalidate_instance_cache(None);
    assert(app@ =~~= submission(old(app)@, id@, start, end, lowered@).app);
    Outcome { keep_running: true, effects }
}

/// Handles a key in the list of recurrences.
fn handle_recurrence_key(app: &mut App, key: Key)
    requires
        old(app)@.is_valid(),
    ensures
        final(app)@ == recurrence_step(old(app)@, key),
        final(app)@.is_valid(),
{
    match key {
        Key::Up | Key::Char('k') => {
            if app.selected_recurrence_index > 0 {
                app.selected_recurrence_index = app.selected_recurrence_index - 1;
            }
        },
        Key::Down | Key::Char('j') => {
            if app.selected_recurrence_index < 4 {
                app.selected_recurrence_index = app.selected_recurrence_index + 1;
            }
        },
        Key::Enter => {
            let name = recurrence_to_str(recurrence_from_index(app.selected_recurrence_index));
            app.popup_event_recurrence = String::from_str(name);
            app.input_mode = InputMode::EditingEventPopup;
            app.selected_input_field = PopupInputField::Recurrence;
        },
        Key::Esc => {
            app.input_mode = InputMode::EditingEventPopup;
            app.selected_input_field = PopupInputField::Recurrence;
        },
        _ => {},
    }
}

/// The event that editing or deleting the entry `chosen` works on.
fn find_event_behind(chosen: &CalendarEvent, events: &Vec<CalendarEvent>) -> (event: CalendarEvent)
    ensures
        event@ == event_behind(chosen@, views(events@)),
{
    match find_base_event_for_instance(chosen, events) {
        Some(base) => base,
        None => chosen.clone(),
    }
}

/// Opens the event form on the selected entry of the list.
fn open_edit(app: &mut App)
    requires
        old(app)@.is_valid(),
    ensures
        final(app)@ == edit_opened(old(app)@),
        final(app)@.is_valid(),
{
    if app.selected_event_index >= app.events_to_display_in_popup.len() {
        return ;
    }
    assert(views(app.events_to_display_in_popup@)[app.selected_event_index as int]
        == app.events_to_display_in_popup@[app.selected_event_index as int]@);
    let event = find_event_behind(
        &app.events_to_display_in_popup[app.selected_event_index],
        &app.events,
    );
    if !event.date.check_valid() {
        return ;
    }
    app.popup_event_title = event.title.clone();
    app.popup_event_time = format_clock(event.time);
    app.popup_event_end_date = match event.end_date {
        Some(end) => format_short_date(end),
        None => String::new(),
    };
    app.popup_event_end_time = match event.end_time {
        Some(end) => format_clock(end),
        None => String::new(),
    };
    app.popup_event_recurrence = String::from_str(recurrence_to_str(event.recurrence));
    app.popup_event_description = event.description.clone();
    app.current_date_for_new_event = event.date;
    app.is_editing = true;
    app.cursor_position = chars_of(event.title.as_str()).len();
    app.event_being_edited = Some(event);
    app.show_add_event_popup = true;
    app.input_mode = InputMode::EditingEventPopup;
    app.selected_input_field = PopupInputField::Title;
    assert(app@ =~~= edit_opened(old(app)@));
}

/// Handles a key in the list of the day's events.
fn handle_list_key(app: &mut App, key: Key)
    requires
        old(app)@.is_valid(),
    ensures
        final(app)@ == list_step(old(app)@, key),
        final(app)@.is_valid(),
{
    let count: usize = app.events_to_display_in_popup.len();
    assert(views(app.events_to_display_in_popup@).len() == count);
    match key {
        Key::Esc => {
            app.show_view_events_popup = false;
            app.events_to_display_in_popup = Vec::new();
            app.selected_event_index = 0;
            app.event_to_delete_index = None;
            app.input_mode = InputMode::Normal;
            assert(app@ =~~= list_step(old(app)@, key));
        },
        Key::Up | Key::Char('k') => {
            if count == 0 {
            } else if app.selected_event_index == 0 {
                app.selected_event_index = count - 1;
            } else {
                app.selected_event_index = app.selected_event_index - 1;
            }
        },
        Key::Down | Key::Char('j') => {
            if count == 0 {
            } else if app.selected_event_index >= count - 1 {
                app.selected_event_index = 0;
            } else {
                app.selected_event_index = app.selected_event_index + 1;
            }
        },
        Key::Char('e') => {
            open_edit(app);
        },
        Key::Char('a') => {
            open_add_popup(app);
        },
        Key::Char('d') | Key::Delete => {
            if count > 0 {
                app.event_to_delete_index = Some(app.selected_event_index);
                app.input_mode = InputMode::DeleteConfirmation;
            }
        },
        _ => {},
    }
}

/// The series that deleting the entry `chosen` deletes.
fn find_series(chosen: &CalendarEvent, events: &Vec<CalendarEvent>) -> (base: Option<
    CalendarEvent,
>)
    ensures
        base matches Some(event) ==> series_of(chosen@, views(events@)) == Some(event@),
        base is None ==> series_of(chosen@, views(events@)) is None,
{
    if chosen.is_recurring_instance {
        find_base_event_for_instance(chosen, events)
    } else if chosen.recurrence != Recurrence::Never {
        Some(chosen.clone())
    } else {
        None
    }
}

/// Brings the selected index back into the list.
fn keep_selection_within(app: &mut App)
    ensures
        final(app)@ == (AppView {
            selected_event_index: index_within(
                old(app)@.selected_event_index,
                old(app)@.events_to_display_in_popup.len(),
            ),
            ..old(app)@
        }),
{
    let count: usize = app.events_to_display_in_popup.len();
    assert(views(app.events_to_display_in_popup@).len() == count);
    if app.selected_event_index >= count {
        if count == 0 {
            app.selected_event_index = 0;
        } else {
            app.selected_event_index = count - 1;
        }
    }
}

/// Carries out the deletion that was asked for.
fn confirm_deletion(app: &mut App) -> (outcome: Outcome)
    requires
        old(app)@.is_valid(),
    ensures
        final(app)@ == deletion_confirmed(old(app)@).app,
        outcome.keep_running,
        effect_views(outcome.effects@) == deletion_confirmed(old(app)@).effects,
        final(app)@.is_valid(),
{
    let asked = app.event_to_delete_index;
    app.event_to_delete_index = None;
    app.input_mode = InputMode::ViewEventsPopup;
    let index: usize = match asked {
        Some(index) => index,
        None => {
            return nothing_to_do();
        },
    };
    assert(views(app.events_to_display_in_popup@).len() == app.events_to_display_in_popup@.len());
    if index >= app.events_to_display_in_popup.len() {
        return nothing_to_do();
    }
    assert(views(app.events_to_display_in_popup@)[index as int]
        == app.events_to_display_in_popup@[index as int]@);
    let chosen = app.events_to_display_in_popup[index].clone();
    let mut effects: Vec<Effect> = Vec::new();
    assert(effect_views(effects@) =~= Seq::<EffectView>::empty());
    match find_series(&chosen, &app.events) {
        Some(base) => {
            app.invalidate_instance_cache(Some(&base));
            let effect = Effect::RemoveEvent(base.clone());
            let title = Criterion::TitledOtherwise(base.title.clone());
            let series = Criterion::OutsideSeries(base);
            app.events = retain_events(&app.events, &series);
            app.events_to_display_in_popup = retain_events(&app.events_to_display_in_popup, &title);
            effects.push(effect);
            assert(effect_views(effects@) =~= seq![effect@]);
        },
        None => {
            app.invalidate_instance_cache(Some(&chosen));
            if !chosen.is_recurring_instance {
                let effect = Effect::RemoveEvent(chosen.clone());
                effects.push(effect);
                assert(effect_views(effects@) =~= seq![effect@]);
            }
            let ghost listed = views(app.events_to_display_in_popup@);
            app.events_to_display_in_popup.remove(index);
            assert(views(app.events_to_display_in_popup@) =~= listed.remove(index as int));
            let single = Criterion::Differing(chosen);
            app.events = retain_events(&app.events, &single);
        },
    }
    push_background_push(app, &mut effects);
    keep_selection_within(app);
    assert(app@ =~~= deletion_confirmed(old(app)@).app);
    Outcome { keep_running: true, effects }
}

/// Handles a key while a deletion waits to be confirmed.
fn handle_confirmation_key(app: &mut App, key: Key) -> (outcome: Outcome)
    requires
        old(app)@.is_valid(),
    ensures
        final(app)@ == confirmation_step(old(app)@, key).app,
        outcome.keep_running == confirmation_step(old(app)@, key).keep_running,
        effect_views(outcome.effects@) == confirmation_step(old(app)@, key).effects,
        final(app)@.is_valid(),
{
    match key {
        Key::Char('y') => {
            return confirm_deletion(app);
        },
        Key::Char('n') | Key::Esc => {
            app.event_to_delete_index = None;
            app.input_mode = InputMode::ViewEventsPopup;
        },
        _ => {},
    }
    nothing_to_do()
}

/// Handles a key on the synchronisation screen.
fn handle_sync_key(app: &mut App, key: Key) -> (outcome: Outcome)
    requires
        old(app)@.is_valid(),
    ensures
        final(app)@ == sync_step(old(app)@, key).app,
        outcome.keep_running == sync_step(old(app)@, key).keep_running,
        effect_views(outcome.effects@) == sync_step(old(app)@, key).effects,
        final(app)@.is_valid(),
{
    match key {
        Key::Char('f') => {
            if app.sync_provider.is_some() {
                return one_effect(Effect::Pull);
            }
        },
        Key::Char('p') => {
            if app.sync_provider.is_some() {
                return one_effect(Effect::Push);
            }
        },
        Key::Esc => {
            app.input_mode = InputMode::Normal;
            app.sync_message = String::new();
            app.sync_status = None;
            assert(app@ =~~= sync_step(old(app)@, key).app);
        },
        _ => {},
    }
    nothing_to_do()
}

/// Handles a key, given the identifier for an event that the key may
/// create.
pub fn handle_key(app: &mut App, key: Key, id: String) -> (outcome: Outcome)
    requires
        old(app)@.is_valid(),
    ensures
        final(app)@ == step(old(app)@, key, id@).app,
        outcome.keep_running == step(old(app)@, key, id@).keep_running,
        effect_views(outcome.effects@) == step(old(app)@, key, id@).effects,
        final(app)@.is_valid(),
{
    match app.input_mode {
        InputMode::Normal => handle_normal_key(app, key),
        InputMode::EditingEventPopup => {
            match key {
                Key::Enter => {
                    let start_text = string_of(&normal_time_of(app.popup_event_time.as_str()));
                    let end_text = string_of(&normal_time_of(app.popup_event_end_time.as_str()));
                    let start = parse_clock_time(start_text.as_str());
                    let end = parse_clock_time(end_text.as_str());
                    let recurrence = string_of(&trim(&chars_of(app.popup_event_recurrence.as_str())));
                    let lowered = chars_of(recurrence.as_str().to_lowercase().as_str());
                    submit_form(app, id, start, end, &lowered)
                },
                _ => {
                    handle_form_key(app, key);
                    nothing_to_do()
                },
            }
        },
        InputMode::SelectingRecurrence => {
            handle_recurrence_key(app, key);
            nothing_to_do()
        },
        InputMode::ViewEventsPopup => {
            handle_list_key(app, key);
            nothing_to_do()
        },
        InputMode::DeleteConfirmation => handle_confirmation_key(app, key),
        InputMode::Sync => handle_sync_key(app, key),
    }
}

/// Handles a key: changes the session as the key asks, and says whether the
/// session goes on and what is left for the caller to do. An event that the
/// key creates gets a fresh random identifier.
pub fn handle_event(app: &mut App, key: Key) -> (outcome: Outcome)
    requires
        old(app)@.is_valid(),
    ensures
        exists|id: Seq<char>|
            {
                &&& final(app)@ == (#[trigger] step(old(app)@, key, id)).app
                &&& outcome.keep_running == step(old(app)@, key, id).keep_running
                &&& effect_views(outcome.effects@) == step(old(app)@, key, id).effects
            },
        final(app)@.is_valid(),
{
    let creates = match (app.input_mode, key) {
        (InputMode::EditingEventPopup, Key::Enter) => true,
        _ => false,
    };
    let id = if creates {
        fresh_event_id()
    } else {
        String::new()
    };
    let ghost chosen = id@;
    let outcome = handle_key(app, key, id);
    assert(app@ == step(old(app)@, key, chosen).app);
    outcome
}

/// The view of what was reported of the remote.
pub open spec fn report_view(report: Result<SyncStatus, String>) -> Result<StatusView, Seq<char>> {
    match report {
        Ok(status) => Ok(status@),
        Err(text) => Err(text@),
    }
}

/// The message that the synchronisation screen shows for a status.
fn message_for_status(status: &SyncStatus) -> (message: String)
    ensures
        message@ == status_message(status@),
{
    match status {
        SyncStatus::UpToDate => String::new(),
        SyncStatus::Ahead => String::from_str("Ahead of remote"),
        SyncStatus::Behind => String::from_str("Behind remote"),
        SyncStatus::Conflicts => String::from_str("Conflicts detected"),
        SyncStatus::Error(text) => String::from_str("Status error: ").concat(text.as_str()),
    }
}

/// Takes in the status against the remote that was asked for, or the
/// failure to get it.
pub fn status_reported(app: &mut App, report: Result<SyncStatus, String>)
    ensures
        final(app)@ == after_status(old(app)@, report_view(report)),
{
    match report {
        Ok(status) => {
            app.sync_message = message_for_status(&status);
            app.sync_status = Some(status);
        },
        Err(text) => {
            app.sync_message = String::from_str("Status failed: ").concat(text.as_str());
            app.sync_status = Some(SyncStatus::Error(text));
        },
    }
    assert(app@ =~~= after_status(old(app)@, report_view(report)));
}

/// Takes in the end of a pull or a push.
fn transfer_finished(
    app: &mut App,
    outcome: Result<SyncStatus, String>,
    done: &str,
    failed: &str,
)
    ensures
        final(app)@ == after_transfer(old(app)@, report_view(outcome), done@, failed@),
{
    match outcome {
        Ok(status) => {
            app.sync_message = String::from_str(done);
            app.sync_status = Some(status);
        },
        Err(text) => {
            app.sync_message = String::from_str(failed).concat(text.as_str());
            app.sync_status = Some(SyncStatus::Error(text));
        },
    }
    assert(app@ =~~= after_transfer(old(app)@, report_view(outcome), done@, failed@));
}

/// Takes in the end of a pull. After a pull that went well the events are
/// to be loaded again.
pub fn pull_finished(app: &mut App, outcome: Result<SyncStatus, String>) -> (effects: Vec<Effect>)
    ensures
        final(app)@ == after_transfer(
            old(app)@,
            report_view(outcome),
            "Pull successful"@,
            "Pull failed: "@,
        ),
        effect_views(effects@) == if outcome is Ok {
            seq![EffectView::ReloadEvents]
        } else {
            Seq::empty()
        },
{
    let mut effects: Vec<Effect> = Vec::new();
    if outcome.is_ok() {
        effects.push(Effect::ReloadEvents);
        assert(effect_views(effects@) =~= seq![EffectView::ReloadEvents]);
    } else {
        assert(effect_views(effects@) =~= Seq::<EffectView>::empty());
    }
    transfer_finished(app, outcome, "Pull successful", "Pull failed: ");
    effects
}

/// Takes in the end of a push.
pub fn push_finished(app: &mut App, outcome: Result<SyncStatus, String>)
    ensures
        final(app)@ == after_transfer(
            old(app)@,
            report_view(outcome),
            "Push successful"@,
            "Push failed: "@,
        ),
{
    transfer_finished(app, outcome, "Push successful", "Push failed: ");
}

/// Takes in the events that were loaded again: the session holds them, and
/// its cache is emptied.
pub fn events_reloaded(app: &mut App, events: Vec<CalendarEvent>)
    ensures
        final(app)@ == after_reload(old(app)@, views(events@)),
{
    app.events = events;
    app.invalidate_instance_cache(None);
    assert(app@ =~~= after_reload(old(app)@, views(events@)));
}

/// Takes in the end of a push that ran in the background. Where it went
/// well, `events` are the events as loaded again, and the session is up to
/// date; where it failed, the failure becomes the status.
pub fn background_sync_finished(
    app: &mut App,
    outcome: Result<Vec<CalendarEvent>, String>,
)
    ensures
        final(app)@ == match outcome {
            Ok(events) => AppView {
                sync_status: Some(StatusView::UpToDate),
                ..after_reload(old(app)@, views(events@))
            },
            Err(text) => AppView { sync_status: Some(StatusView::Error(text@)), ..old(app)@ },
        },
{
    match outcome {
        Ok(events) => {
            events_reloaded(app, events);
            app.sync_status = Some(SyncStatus::UpToDate);
        },
        Err(text) => {
            app.sync_status = Some(SyncStatus::Error(text));
        },
    }
}

} // verus!
