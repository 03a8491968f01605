//! The calendar's records: events, their recurrence, and the modes of the
//! interactive session.

use crate::cache::{
    cache_after_invalidate, cache_after_query, expandable, query_result, window_fits, window_for,
    CacheView, InstanceCache,
};
use crate::calendar::{Date, Time};
use crate::date_utils::suggestion_views;
use crate::sync::{GitSyncProvider, ProviderView, StatusView, SyncStatus};
use crate::text::{chars_of, utf8_size};
use vstd::prelude::*;

verus! {

/// How often an event repeats.
#[derive(Clone, Copy, PartialEq, Eq, Debug, Structural)]
pub enum Recurrence {
    Never,
    Daily,
    Weekly,
    Monthly,
    Yearly,
}

/// A calendar entry: either a base event that the user wrote, or an
/// occurrence derived from a recurring base event.
///
/// `date` and `time` repeat `start_date` and `start_time`; they are kept for
/// callers that still read them.
#[derive(PartialEq, Eq, Debug)]
pub struct CalendarEvent {
    pub id: String,
    pub date: Date,
    pub time: Time,
    pub title: String,
    pub description: String,
    pub recurrence: Recurrence,
    pub is_recurring_instance: bool,
    pub base_date: Option<Date>,
    pub start_date: Date,
    pub end_date: Option<Date>,
    pub start_time: Time,
    pub end_time: Option<Time>,
    pub is_all_day: bool,
}

/// What an event says, with its texts as character sequences.
#[verifier::ext_equal]
pub struct EventView {
    pub id: Seq<char>,
    pub date: Date,
    pub time: Time,
    pub title: Seq<char>,
    pub description: Seq<char>,
    pub recurrence: Recurrence,
    pub is_recurring_instance: bool,
    pub base_date: Option<Date>,
    pub start_date: Date,
    pub end_date: Option<Date>,
    pub start_time: Time,
    pub end_time: Option<Time>,
    pub is_all_day: bool,
}

impl View for CalendarEvent {
    type V = EventView;

    open spec fn view(&self) -> EventView {
        EventView {
            id: self.id@,
            date: self.date,
            time: self.time,
            title: self.title@,
            description: self.description@,
            recurrence: self.recurrence,
            is_recurring_instance: self.is_recurring_instance,
            base_date: self.base_date,
            start_date: self.start_date,
            end_date: self.end_date,
            start_time: self.start_time,
            end_time: self.end_time,
            is_all_day: self.is_all_day,
        }
    }
}

impl EventView {
    /// Every date of the event names a day that exists.
    pub open spec fn is_valid(self) -> bool {
        &&& self.date.is_valid()
        &&& self.start_date.is_valid()
        &&& self.end_date matches Some(end) ==> end.is_valid()
        &&& self.base_date matches Some(base) ==> base.is_valid()
    }
}

impl CalendarEvent {
    /// Whether every date of the event names a day that exists.
    pub fn check_valid(&self) -> (valid: bool)
        ensures
            valid == self@.is_valid(),
    {
        let end_valid = match self.end_date {
            Some(end) => end.check_valid(),
            None => true,
        };
        let base_valid = match self.base_date {
            Some(base) => base.check_valid(),
            None => true,
        };
        self.date.check_valid() && self.start_date.check_valid() && end_valid && base_valid
    }
}

impl Clone for CalendarEvent {
    fn clone(&self) -> (copy: Self)
        ensures
            copy == *self,
    {
        CalendarEvent {
            id: self.id.clone(),
            date: self.date,
            time: self.time,
            title: self.title.clone(),
            description: self.description.clone(),
            recurrence: self.recurrence,
            is_recurring_instance: self.is_recurring_instance,
            base_date: self.base_date,
            start_date: self.start_date,
            end_date: self.end_date,
            start_time: self.start_time,
            end_time: self.end_time,
            is_all_day: self.is_all_day,
        }
    }
}

/// The views of a list of events, in order.
pub open spec fn views(events: Seq<CalendarEvent>) -> Seq<EventView> {
    events.map_values(|event: CalendarEvent| event@)
}

/// What the session is currently doing with the keyboard.
#[derive(Clone, Copy, PartialEq, Eq, Debug, Structural)]
pub enum InputMode {
    Normal,
    EditingEventPopup,
    SelectingRecurrence,
    ViewEventsPopup,
    DeleteConfirmation,
    Sync,
}

/// The field of the event form that has the cursor.
#[derive(Clone, Copy, PartialEq, Eq, Debug, Structural)]
pub enum PopupInputField {
    Title,
    Time,
    EndDate,
    EndTime,
    Description,
    Recurrence,
}

/// The state of an interactive session: the selected day, the events, the
/// event form and the lists on screen, the synchronisation settings, and the
/// instance cache.
pub struct App {
    pub date: Date,
    pub events: Vec<CalendarEvent>,
    pub input: String,
    pub input_mode: InputMode,
    pub popup_event_title: String,
    pub popup_event_time: String,
    pub popup_event_end_date: String,
    pub popup_event_end_time: String,
    pub popup_event_description: String,
    pub popup_event_recurrence: String,
    pub selected_input_field: PopupInputField,
    pub show_add_event_popup: bool,
    pub show_view_events_popup: bool,
    pub events_to_display_in_popup: Vec<CalendarEvent>,
    pub selected_event_index: usize,
    pub event_to_delete_index: Option<usize>,
    pub current_date_for_new_event: Date,
    pub cursor_position: usize,
    pub is_editing: bool,
    pub event_being_edited: Option<CalendarEvent>,
    pub sync_provider: Option<GitSyncProvider>,
    pub sync_status: Option<SyncStatus>,
    pub sync_message: String,
    pub error_message: String,
    pub date_input_error: Option<String>,
    pub date_suggestions: Vec<(String, bool)>,
    pub show_date_suggestions: bool,
    pub selected_suggestion_index: usize,
    pub selected_recurrence_index: usize,
    pub view_start_month: u32,
    pub view_start_year: i32,
    pub cache: InstanceCache,
}

/// What a session holds, with texts as character sequences and events as
/// views.
#[verifier::ext_equal]
pub struct AppView {
    pub date: Date,
    pub events: Seq<EventView>,
    pub input: Seq<char>,
    pub input_mode: InputMode,
    pub popup_event_title: Seq<char>,
    pub popup_event_time: Seq<char>,
    pub popup_event_end_date: Seq<char>,
    pub popup_event_end_time: Seq<char>,
    pub popup_event_description: Seq<char>,
    pub popup_event_recurrence: Seq<char>,
    pub selected_input_field: PopupInputField,
    pub show_add_event_popup: bool,
    pub show_view_events_popup: bool,
    pub events_to_display_in_popup: Seq<EventView>,
    pub selected_event_index: usize,
    pub event_to_delete_index: Option<usize>,
    pub current_date_for_new_event: Date,
    pub cursor_position: usize,
    pub is_editing: bool,
    pub event_being_edited: Option<EventView>,
    pub sync_provider: Option<ProviderView>,
    pub sync_status: Option<StatusView>,
    pub sync_message: Seq<char>,
    pub error_message: Seq<char>,
    pub date_input_error: Option<Seq<char>>,
    pub date_suggestions: Seq<(Seq<char>, bool)>,
    pub show_date_suggestions: bool,
    pub selected_suggestion_index: usize,
    pub selected_recurrence_index: usize,
    pub view_start_month: u32,
    pub view_start_year: i32,
    pub cache: CacheView,
}

impl View for App {
    type V = AppView;

    open spec fn view(&self) -> AppView {
        AppView {
            date: self.date,
            events: views(self.events@),
            input: self.input@,
            input_mode: self.input_mode,
            popup_event_title: self.popup_event_title@,
            popup_event_time: self.popup_event_time@,
            popup_event_end_date: self.popup_event_end_date@,
            popup_event_end_time: self.popup_event_end_time@,
            popup_event_description: self.popup_event_description@,
            popup_event_recurrence: self.popup_event_recurrence@,
            selected_input_field: self.selected_input_field,
            show_add_event_popup: self.show_add_event_popup,
            show_view_events_popup: self.show_view_events_popup,
            events_to_display_in_popup: views(self.events_to_display_in_popup@),
            selected_event_index: self.selected_event_index,
            event_to_delete_index: self.event_to_delete_index,
            current_date_for_new_event: self.current_date_for_new_event,
            cursor_position: self.cursor_position,
            is_editing: self.is_editing,
            event_being_edited: match self.event_being_edited {
                Some(event) => Some(event@),
                None => None,
            },
            sync_provider: match self.sync_provider {
                Some(provider) => Some(provider@),
                None => None,
            },
            sync_status: match self.sync_status {
                Some(status) => Some(status@),
                None => None,
            },
            sync_message: self.sync_message@,
            error_message: self.error_message@,
            date_input_error: match self.date_input_error {
                Some(text) => Some(text@),
                None => None,
            },
            date_suggestions: suggestion_views(self.date_suggestions@),
            show_date_suggestions: self.show_date_suggestions,
            selected_suggestion_index: self.selected_suggestion_index,
            selected_recurrence_index: self.selected_recurrence_index,
            view_start_month: self.view_start_month,
            view_start_year: self.view_start_year,
            cache: self.cache@,
        }
    }
}

/// The number of a month counted through the years.
pub open spec fn month_index(year: int, month: int) -> int {
    year * 12 + month - 1
}

/// The first month of the three on screen after the selected day has moved:
/// unchanged where the day's month is one of the three; the day's month
/// where that lies before them; and the month two before the day's, so that
/// the day's month is the third, where it lies after them.
pub open spec fn view_start_for(date: Date, start_year: i32, start_month: u32) -> (i32, u32) {
    let shown = month_index(date.year as int, date.month as int);
    let first = month_index(start_year as int, start_month as int);
    if shown < first {
        (date.year, date.month)
    } else if shown > first + 2 {
        if date.month >= 3 {
            (date.year, (date.month - 2) as u32)
        } else {
            ((date.year - 1) as i32, (date.month + 10) as u32)
        }
    } else {
        (start_year, start_month)
    }
}

impl AppView {
    /// The selected day and the day of the event form are days that exist.
    pub open spec fn is_valid(self) -> bool {
        self.date.is_valid() && self.current_date_for_new_event.is_valid()
    }

    /// The text of the form field that has the cursor.
    pub open spec fn current_field(self) -> Seq<char> {
        match self.selected_input_field {
            PopupInputField::Title => self.popup_event_title,
            PopupInputField::Time => self.popup_event_time,
            PopupInputField::EndDate => self.popup_event_end_date,
            PopupInputField::EndTime => self.popup_event_end_time,
            PopupInputField::Description => self.popup_event_description,
            PopupInputField::Recurrence => self.popup_event_recurrence,
        }
    }

    /// The session with `text` in the form field that has the cursor.
    pub open spec fn with_current_field(self, text: Seq<char>) -> AppView {
        match self.selected_input_field {
            PopupInputField::Title => AppView { popup_event_title: text, ..self },
            PopupInputField::Time => AppView { popup_event_time: text, ..self },
            PopupInputField::EndDate => AppView { popup_event_end_date: text, ..self },
            PopupInputField::EndTime => AppView { popup_event_end_time: text, ..self },
            PopupInputField::Description => AppView { popup_event_description: text, ..self },
            PopupInputField::Recurrence => AppView { popup_event_recurrence: text, ..self },
        }
    }

    /// The session with the three months on screen following the selected
    /// day.
    pub open spec fn with_adjusted_view(self) -> AppView {
        let (year, month) = view_start_for(self.date, self.view_start_year, self.view_start_month);
        AppView { view_start_year: year, view_start_month: month, ..self }
    }
}

impl App {
    /// A session on the day `today`, with no events and nothing on screen
    /// but the calendar, whose three months start with today's.
    pub fn new(today: Date) -> (app: App)
        ensures
            app@.date == today,
            app@.current_date_for_new_event == today,
            app@.events.len() == 0,
            app@.events_to_display_in_popup.len() == 0,
            app@.input_mode == InputMode::Normal,
            app@.selected_input_field == PopupInputField::Title,
            !app@.show_add_event_popup,
            !app@.show_view_events_popup,
            !app@.is_editing,
            !app@.show_date_suggestions,
            app@.selected_event_index == 0,
            app@.cursor_position == 0,
            app@.selected_suggestion_index == 0,
            app@.selected_recurrence_index == 0,
            app@.event_to_delete_index is None,
            app@.event_being_edited is None,
            app@.sync_provider is None,
            app@.sync_status is None,
            app@.date_input_error is None,
            app@.date_suggestions.len() == 0,
            app@.input.len() == 0,
            app@.popup_event_title.len() == 0,
            app@.popup_event_time.len() == 0,
            app@.popup_event_end_date.len() == 0,
            app@.popup_event_end_time.len() == 0,
            app@.popup_event_description.len() == 0,
            app@.popup_event_recurrence.len() == 0,
            app@.sync_message.len() == 0,
            app@.error_message.len() == 0,
            app@.view_start_year == today.year,
            app@.view_start_month == today.month,
            app@.cache.window is None,
            app@.cache.instances.len() == 0,
    {
        App {
            date: today,
            events: Vec::new(),
            input: String::new(),
            input_mode: InputMode::Normal,
            popup_event_title: String::new(),
            popup_event_time: String::new(),
            popup_event_end_date: String::new(),
            popup_event_end_time: String::new(),
            popup_event_description: String::new(),
            popup_event_recurrence: String::new(),
            selected_input_field: PopupInputField::Title,
            show_add_event_popup: false,
            show_view_events_popup: false,
            events_to_display_in_popup: Vec::new(),
            selected_event_index: 0,
            event_to_delete_index: None,
            current_date_for_new_event: today,
            cursor_position: 0,
            is_editing: false,
            event_being_edited: None,
            sync_provider: None,
            sync_status: None,
            sync_message: String::new(),
            error_message: String::new(),
            date_input_error: None,
            date_suggestions: Vec::new(),
            show_date_suggestions: false,
            selected_suggestion_index: 0,
            selected_recurrence_index: 0,
            view_start_month: today.month,
            view_start_year: today.year,
            cache: InstanceCache::new(),
        }
    }

    /// The byte at which the character with index `char_index` starts in the
    /// UTF-8 form of `s`: the bytes taken by the characters before it, and
    /// by all of `s` where it has no such character.
    pub fn char_to_byte_index(s: &str, char_index: usize) -> (byte_index: usize)
        ensures
            byte_index == utf8_size(
                s@.take(
                    if char_index <= s@.len() {
                        char_index as int
                    } else {
                        s@.len() as int
                    },
                ),
            ),
    {
        let chars = chars_of(s);
        let total: usize = s.as_bytes().len();
        proof {
            crate::text::lemma_utf8_size_is_encoded_length(s@);
        }
        if char_index >= chars.len() {
            assert(s@.take(s@.len() as int) == s@);
            return total;
        }
        let mut bytes: usize = 0;
        let mut i: usize = 0;
        assert(chars@.take(0) =~= Seq::<char>::empty());
        while i < chars.len() && i < char_index
            invariant
                i <= chars.len(),
                i <= char_index,
                chars@ == s@,
                utf8_size(s@) <= usize::MAX,
                bytes == utf8_size(chars@.take(i as int)),
            decreases chars.len() - i,
        {
            let code: u32 = chars[i] as u32;
            let width: usize = if code < 0x80 {
                1
            } else if code < 0x800 {
                2
            } else if code < 0x10000 {
                3
            } else {
                4
            };
            proof {
                assert(chars@.take(i + 1).drop_last() == chars@.take(i as int));
                assert(chars@.take(i + 1).last() == chars@[i as int]);
                crate::text::lemma_utf8_size_grows(chars@, i + 1);
            }
            bytes += width;
            i += 1;
        }
        bytes
    }

    /// The text of the form field that has the cursor.
    pub fn get_current_field(&self) -> (text: &str)
        ensures
            text@ == self@.current_field(),
    {
        match self.selected_input_field {
            PopupInputField::Title => self.popup_event_title.as_str(),
            PopupInputField::Time => self.popup_event_time.as_str(),
            PopupInputField::EndDate => self.popup_event_end_date.as_str(),
            PopupInputField::EndTime => self.popup_event_end_time.as_str(),
            PopupInputField::Description => self.popup_event_description.as_str(),
            PopupInputField::Recurrence => self.popup_event_recurrence.as_str(),
        }
    }

    /// The form field that has the cursor, to be written to.
    pub fn get_current_field_mut(&mut self) -> (field: &mut String)
        ensures
            field@ == old(self)@.current_field(),
            final(self)@ == old(self)@.with_current_field(final(field)@),
    {
        match self.selected_input_field {
            PopupInputField::Title => &mut self.popup_event_title,
            PopupInputField::Time => &mut self.popup_event_time,
            PopupInputField::EndDate => &mut self.popup_event_end_date,
            PopupInputField::EndTime => &mut self.popup_event_end_time,
            PopupInputField::Description => &mut self.popup_event_description,
            PopupInputField::Recurrence => &mut self.popup_event_recurrence,
        }
    }

    /// The number of characters in the form field that has the cursor.
    pub fn get_current_field_char_count(&self) -> (count: usize)
        ensures
            count == self@.current_field().len(),
    {
        chars_of(self.get_current_field()).len()
    }

    /// Puts `text` into the form field that has the cursor.
    pub fn set_current_field(&mut self, text: String)
        ensures
            final(self)@ == old(self)@.with_current_field(text@),
    {
        match self.selected_input_field {
            PopupInputField::Title => {
                self.popup_event_title = text;
            },
            PopupInputField::Time => {
                self.popup_event_time = text;
            },
            PopupInputField::EndDate => {
                self.popup_event_end_date = text;
            },
            PopupInputField::EndTime => {
                self.popup_event_end_time = text;
            },
            PopupInputField::Description => {
                self.popup_event_description = text;
            },
            PopupInputField::Recurrence => {
                self.popup_event_recurrence = text;
            },
        }
    }

    /// Moves the three months on screen so that they hold the selected day.
    pub fn adjust_view_boundaries(&mut self)
        ensures
            final(self)@ == old(self)@.with_adjusted_view(),
    {
        let shown: i64 = self.date.year as i64 * 12 + self.date.month as i64 - 1;
        let first: i64 = self.view_start_year as i64 * 12 + self.view_start_month as i64 - 1;
        if shown < first {
            self.view_start_year = self.date.year;
            self.view_start_month = self.date.month;
        } else if shown > first + 2 {
            if self.date.month >= 3 {
                self.view_start_year = self.date.year;
                self.view_start_month = self.date.month - 2;
            } else {
                self.view_start_year = self.date.year - 1;
                self.view_start_month = self.date.month + 10;
            }
        }
    }

    /// Every event and every occurrence of the recurring ones within the
    /// window around the range, in order of start day and time, from the
    /// session's cache.
    pub fn get_all_events_for_range(&mut self, range_start: Date, range_end: Date) -> (listing:
        Vec<CalendarEvent>)
        requires
            range_start.is_valid(),
            range_end.is_valid(),
            window_fits(range_start, range_end),
            expandable(old(self)@.events, window_for(range_start, range_end).1),
        ensures
            final(self)@ == (AppView {
                cache: cache_after_query(
                    old(self)@.cache,
                    old(self)@.events,
                    range_start,
                    range_end,
                ),
                ..old(self)@
            }),
            views(listing@) == query_result(final(self)@.cache, old(self)@.events),
    {
        self.cache.query(&self.events, range_start, range_end)
    }

    /// Forgets cached occurrences: all of them and the window where no event
    /// is given, and otherwise those of the event.
    pub fn invalidate_instance_cache(&mut self, scope: Option<&CalendarEvent>)
        ensures
            final(self)@ == (AppView {
                cache: cache_after_invalidate(
                    old(self)@.cache,
                    match scope {
                        Some(event) => Some(event@),
                        None => None,
                    },
                ),
                ..old(self)@
            }),
    {
        self.cache.invalidate(scope);
    }
}

} // verus!
