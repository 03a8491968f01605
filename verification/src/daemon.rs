//! The notification daemon's decisions: which events are announced at a
//! given moment, and when a reload of the events lets them be announced
//! again.

use crate::app::{views, CalendarEvent, EventView};
use crate::cache::{all_expansions, expandable, window_fits, window_for, InstanceCache};
use crate::calendar::{lemma_plus_days, Date, Time};
use crate::event_handling::{clock_text, format_clock, same_event};
use crate::listing::{sort_events, sorted_by, SortKey};
use crate::text::{chars_of, push_all, string_of};
use vstd::prelude::*;

verus! {

/// The longest time ahead, in minutes, at which a timed event is announced.
pub const NOTICE_MINUTES: i64 = 30;

/// What an announcement is remembered by: the event's day, time and title.
pub struct NoticeKey {
    pub date: Date,
    pub time: Time,
    pub title: String,
}

/// A remembered announcement with its title as characters.
#[verifier::ext_equal]
pub struct NoticeKeyView {
    pub date: Date,
    pub time: Time,
    pub title: Seq<char>,
}

impl View for NoticeKey {
    type V = NoticeKeyView;

    open spec fn view(&self) -> NoticeKeyView {
        NoticeKeyView { date: self.date, time: self.time, title: self.title@ }
    }
}

/// The views of a list of remembered announcements.
pub open spec fn key_views(keys: Seq<NoticeKey>) -> Seq<NoticeKeyView> {
    keys.map_values(|key: NoticeKey| key@)
}

/// What an event's announcement is remembered by.
pub open spec fn key_of(event: EventView) -> NoticeKeyView {
    NoticeKeyView { date: event.date, time: event.time, title: event.title }
}

/// A moment: a day and a time of that day.
#[derive(Clone, Copy, PartialEq, Eq, Debug, Structural)]
pub struct Moment {
    pub date: Date,
    pub time: Time,
}

/// The seconds of the day that have passed at a time.
pub open spec fn second_of_day(time: Time) -> int {
    time.hour * 3600 + time.minute * 60 + time.second
}

/// The seconds from `now` to the start of `event`, negative where it has
/// started.
pub open spec fn seconds_until(event: EventView, now: Moment) -> int {
    (event.date.day_number() - now.date.day_number()) * 86400 + second_of_day(event.time)
        - second_of_day(now.time)
}

/// The whole minutes from `now` to the start of `event`.
pub open spec fn minutes_until(event: EventView, now: Moment) -> int {
    seconds_until(event, now) / 60
}

/// Whether an all-day event is due for announcement: it takes place on the
/// day after `now`, and noon of `now`'s day has not come yet.
pub open spec fn all_day_due(now: Moment) -> spec_fn(EventView) -> bool {
    |event: EventView|
        event.is_all_day && now.date.day_number() + 1 <= crate::calendar::max_day_number()
            && event.date == now.date.plus_days(1) && now.time.hour < 12
}

/// Whether a timed event is coming up: it starts at least one whole minute
/// and at most `NOTICE_MINUTES` whole minutes after `now`.
pub open spec fn coming_up(event: EventView, now: Moment) -> bool {
    !event.is_all_day && event.date.is_valid() && event.time.is_valid() && 1 <= minutes_until(
        event,
        now,
    ) <= NOTICE_MINUTES
}

/// The fewest whole minutes until any of the events that are coming up, or
/// one more than `NOTICE_MINUTES` where none is.
pub open spec fn soonest(events: Seq<EventView>, now: Moment) -> int
    decreases events.len(),
{
    if events.len() == 0 {
        NOTICE_MINUTES + 1
    } else {
        let before = soonest(events.drop_last(), now);
        if coming_up(events.last(), now) && minutes_until(events.last(), now) < before {
            minutes_until(events.last(), now)
        } else {
            before
        }
    }
}

/// Whether a timed event is due for announcement: it is coming up, and no
/// event that is coming up starts in fewer whole minutes.
pub open spec fn timed_due(events: Seq<EventView>, now: Moment) -> spec_fn(EventView) -> bool {
    |event: EventView| coming_up(event, now) && minutes_until(event, now) == soonest(events, now)
}

/// The text that announces an all-day event.
pub open spec fn all_day_body(event: EventView) -> Seq<char> {
    event.title + " (all day)"@
}

/// The text that announces a timed event.
pub open spec fn timed_body(event: EventView) -> Seq<char> {
    event.title + " at "@ + clock_text(event.time)
}

/// What is announced and what is remembered after the events were gone
/// through once: each event that is due and not remembered yet is announced
/// and remembered, in the order of the events.
pub open spec fn pass(
    events: Seq<EventView>,
    due: spec_fn(EventView) -> bool,
    body: spec_fn(EventView) -> Seq<char>,
    notified: Seq<NoticeKeyView>,
) -> (Seq<Seq<char>>, Seq<NoticeKeyView>)
    decreases events.len(),
{
    if events.len() == 0 {
        (Seq::empty(), notified)
    } else {
        let (bodies, seen) = pass(events.drop_last(), due, body, notified);
        let event = events.last();
        if due(event) && !seen.contains(key_of(event)) {
            (bodies.push(body(event)), seen.push(key_of(event)))
        } else {
            (bodies, seen)
        }
    }
}

/// What is remembered after a check: first the all-day events that are due,
/// then the timed ones.
pub open spec fn remembered_after(
    events: Seq<EventView>,
    now: Moment,
    notified: Seq<NoticeKeyView>,
) -> Seq<NoticeKeyView> {
    let first = pass(events, all_day_due(now), |event: EventView| all_day_body(event), notified);
    pass(events, timed_due(events, now), |event: EventView| timed_body(event), first.1).1
}

/// What a check announces: the all-day events of tomorrow, while it is
/// before noon, and then the timed events that start soonest within the
/// next `NOTICE_MINUTES` minutes; none that is remembered as announced.
pub open spec fn announcements(
    events: Seq<EventView>,
    now: Moment,
    notified: Seq<NoticeKeyView>,
) -> Seq<Seq<char>> {
    let first = pass(events, all_day_due(now), |event: EventView| all_day_body(event), notified);
    first.0 + pass(events, timed_due(events, now), |event: EventView| timed_body(event), first.1).0
}

/// Going through the events remembers no announcement twice: where what was
/// remembered before held nothing twice, what is remembered after holds
/// nothing twice either, and everything remembered before is still there.
pub proof fn lemma_pass_remembers_once(
    events: Seq<EventView>,
    due: spec_fn(EventView) -> bool,
    body: spec_fn(EventView) -> Seq<char>,
    notified: Seq<NoticeKeyView>,
)
    requires
        notified.no_duplicates(),
    ensures
        pass(events, due, body, notified).1.no_duplicates(),
        notified.is_prefix_of(pass(events, due, body, notified).1),
    decreases events.len(),
{
    if events.len() > 0 {
        lemma_pass_remembers_once(events.drop_last(), due, body, notified);
    }
}

/// A check remembers no announcement twice.
pub proof fn lemma_check_remembers_once(
    events: Seq<EventView>,
    now: Moment,
    notified: Seq<NoticeKeyView>,
)
    requires
        notified.no_duplicates(),
    ensures
        remembered_after(events, now, notified).no_duplicates(),
        notified.is_prefix_of(remembered_after(events, now, notified)),
{
    let first = pass(events, all_day_due(now), |event: EventView| all_day_body(event), notified);
    lemma_pass_remembers_once(
        events,
        all_day_due(now),
        |event: EventView| all_day_body(event),
        notified,
    );
    lemma_pass_remembers_once(
        events,
        timed_due(events, now),
        |event: EventView| timed_body(event),
        first.1,
    );
}

/// Whether an announcement is remembered.
fn is_remembered(notified: &Vec<NoticeKey>, event: &CalendarEvent) -> (found: bool)
    ensures
        found == key_views(notified@).contains(key_of(event@)),
{
    let mut i: usize = 0;
    while i < notified.len()
        invariant
            i <= notified.len(),
            forall|k: int| 0 <= k < i ==> key_views(notified@)[k] != key_of(event@),
        decreases notified.len() - i,
    {
        let key = &notified[i];
        assert(key_views(notified@)[i as int] == key@);
        if key.date == event.date && key.time == event.time && key.title == event.title {
            assert(key@ =~~= key_of(event@));
            return true;
        }
        i += 1;
    }
    false
}

/// Remembers the announcement of `event`.
fn remember(notified: &mut Vec<NoticeKey>, event: &CalendarEvent)
    ensures
        key_views(final(notified)@) == key_views(old(notified)@).push(key_of(event@)),
{
    let key = NoticeKey { date: event.date, time: event.time, title: event.title.clone() };
    assert(key@ =~~= key_of(event@));
    notified.push(key);
    assert(key_views(notified@) =~= key_views(old(notified)@).push(key_of(event@)));
}

/// The seconds from `now` to the start of `event`.
fn seconds_to(event: &CalendarEvent, now: Moment) -> (seconds: i64)
    requires
        now.date.is_valid(),
        now.time.is_valid(),
        event.date.is_valid(),
        event.time.is_valid(),
    ensures
        seconds == seconds_until(event@, now),
{
    let days: i64 = event.date.days_since(now.date);
    proof {
        crate::calendar::lemma_day_number_bounds(event.date);
        crate::calendar::lemma_day_number_bounds(now.date);
        lemma_day_span();
    }
    let at: i64 = (event.time.hour * 3600 + event.time.minute * 60 + event.time.second) as i64;
    let from: i64 = (now.time.hour * 3600 + now.time.minute * 60 + now.time.second) as i64;
    days * 86400 + at - from
}

/// The day counts of all dates lie within 200 million days of each other.
proof fn lemma_day_span()
    ensures
        -100_000_000 < crate::calendar::min_day_number(),
        crate::calendar::max_day_number() < 100_000_000,
{
    crate::calendar::lemma_days_before_month(crate::calendar::MIN_YEAR as int);
    crate::calendar::lemma_days_before_month(crate::calendar::MAX_YEAR as int);
}

/// Whether a timed event is coming up, and in how many whole minutes.
fn minutes_to_upcoming(event: &CalendarEvent, now: Moment) -> (minutes: Option<i64>)
    requires
        now.date.is_valid(),
        now.time.is_valid(),
    ensures
        minutes is Some <==> coming_up(event@, now),
        minutes matches Some(m) ==> m == minutes_until(event@, now),
{
    if event.is_all_day || !event.date.check_valid() || !(event.time.hour < 24
        && event.time.minute < 60 && event.time.second < 60) {
        return None;
    }
    let seconds: i64 = seconds_to(event, now);
    if seconds < 60 {
        return None;
    }
    let minutes: i64 = seconds / 60;
    if minutes <= NOTICE_MINUTES {
        Some(minutes)
    } else {
        None
    }
}

/// The fewest whole minutes until any of the events that are coming up.
fn soonest_minutes(events: &Vec<CalendarEvent>, now: Moment) -> (least: i64)
    requires
        now.date.is_valid(),
        now.time.is_valid(),
    ensures
        least == soonest(views(events@), now),
{
    let mut least: i64 = NOTICE_MINUTES + 1;
    let mut i: usize = 0;
    let ghost all = views(events@);
    assert(all.take(0) =~= Seq::<EventView>::empty());
    while i < events.len()
        invariant
            i <= events.len(),
            all == views(events@),
            now.date.is_valid(),
            now.time.is_valid(),
            least == soonest(all.take(i as int), now),
        decreases events.len() - i,
    {
        assert(all.take(i + 1).drop_last() =~= all.take(i as int));
        assert(all.take(i + 1).last() == events@[i as int]@);
        if let Some(minutes) = minutes_to_upcoming(&events[i], now) {
            if minutes < least {
                least = minutes;
            }
        }
        i += 1;
    }
    assert(all.take(events.len() as int) =~= all);
    least
}

/// The text that announces an event.
fn body_of(event: &CalendarEvent) -> (body: String)
    ensures
        body@ == if event.is_all_day {
            all_day_body(event@)
        } else {
            timed_body(event@)
        },
{
    let mut text = chars_of(event.title.as_str());
    if event.is_all_day {
        push_all(&mut text, &chars_of(" (all day)"));
    } else {
        push_all(&mut text, &chars_of(" at "));
        push_all(&mut text, &chars_of(format_clock(event.time).as_str()));
    }
    string_of(&text)
}

/// The events to announce at the moment `now`, as the texts of their
/// announcements, given the announcements remembered in `notified`, which
/// takes up the new ones.
///
/// All-day events are announced on the day before they take place, before
/// noon. Of the timed events that start within the next `NOTICE_MINUTES`
/// minutes, those are announced that start soonest, counted in whole
/// minutes. Nothing is announced twice.
pub fn check_upcoming_events(
    events: &Vec<CalendarEvent>,
    now: Moment,
    notified: &mut Vec<NoticeKey>,
) -> (notifications: Vec<String>)
    requires
        now.date.is_valid(),
        now.time.is_valid(),
    ensures
        crate::text::string_views(notifications@) == announcements(
            views(events@),
            now,
            key_views(old(notified)@),
        ),
        key_views(final(notified)@) == remembered_after(
            views(events@),
            now,
            key_views(old(notified)@),
        ),
{
    let mut notifications: Vec<String> = Vec::new();
    let ghost all = views(events@);
    let ghost start = key_views(notified@);
    let ghost all_day = |event: EventView| all_day_body(event);
    let ghost timed = |event: EventView| timed_body(event);
    let tomorrow = now.date.checked_add_days(1);
    proof {
        crate::calendar::lemma_day_number_bounds(now.date);
        if let Some(day) = tomorrow {
            lemma_plus_days(now.date, 1, day);
        }
    }
    let mut i: usize = 0;
    assert(all.take(0) =~= Seq::<EventView>::empty());
    assert(crate::text::string_views(notifications@) =~= Seq::<Seq<char>>::empty());
    while i < events.len()
        invariant
            i <= events.len(),
            all == views(events@),
            now.date.is_valid(),
            tomorrow is Some <==> now.date.day_number() + 1 <= crate::calendar::max_day_number(),
            tomorrow matches Some(day) ==> day == now.date.plus_days(1),
            all_day == |event: EventView| all_day_body(event),
            crate::text::string_views(notifications@) == pass(
                all.take(i as int),
                all_day_due(now),
                all_day,
                start,
            ).0,
            key_views(notified@) == pass(all.take(i as int), all_day_due(now), all_day, start).1,
        decreases events.len() - i,
    {
        assert(all.take(i + 1).drop_last() =~= all.take(i as int));
        assert(all.take(i + 1).last() == events@[i as int]@);
        let event = &events[i];
        let due = event.is_all_day && match tomorrow {
            Some(day) => event.date == day,
            None => false,
        } && now.time.hour < 12;
        if due && !is_remembered(notified, event) {
            let body = body_of(event);
            notifications.push(body);
            remember(notified, event);
            assert(crate::text::string_views(notifications@) =~= pass(
                all.take(i as int),
                all_day_due(now),
                all_day,
                start,
            ).0.push(all_day_body(event@)));
        }
        i += 1;
    }
    assert(all.take(events.len() as int) =~= all);
    let least: i64 = soonest_minutes(events, now);
    let ghost first = pass(all, all_day_due(now), all_day, start);
    let ghost mut later: Seq<Seq<char>> = Seq::empty();
    let mut j: usize = 0;
    assert(first.0 + Seq::<Seq<char>>::empty() =~= first.0);
    while j < events.len()
        invariant
            j <= events.len(),
            all == views(events@),
            now.date.is_valid(),
            now.time.is_valid(),
            least == soonest(all, now),
            timed == |event: EventView| timed_body(event),
            later == pass(all.take(j as int), timed_due(all, now), timed, first.1).0,
            crate::text::string_views(notifications@) == first.0 + later,
            key_views(notified@) == pass(all.take(j as int), timed_due(all, now), timed, first.1).1,
        decreases events.len() - j,
    {
        assert(all.take(j + 1).drop_last() =~= all.take(j as int));
        assert(all.take(j + 1).last() == events@[j as int]@);
        let event = &events[j];
        let due = match minutes_to_upcoming(event, now) {
            Some(minutes) => minutes == least,
            None => false,
        };
        if due && !is_remembered(notified, event) {
            let body = body_of(event);
            notifications.push(body);
            remember(notified, event);
            proof {
                assert(crate::text::string_views(notifications@) =~= (first.0 + later).push(
                    timed_body(event@),
                ));
                assert((first.0 + later).push(timed_body(event@)) =~= first.0 + later.push(
                    timed_body(event@),
                ));
                later = later.push(timed_body(event@));
            }
        }
        j += 1;
    }
    assert(all.take(events.len() as int) =~= all);
    notifications
}

/// The events that a check on the day `today` looks at: the events held and
/// the occurrences of the recurring ones up to a year after today, in order
/// of start day and time; the events alone, in that order, where the
/// occurrences cannot be generated.
pub open spec fn events_to_check(events: Seq<EventView>, today: Date) -> Seq<EventView> {
    if today.is_valid() && window_fits(today, today) && expandable(
        events,
        window_for(today, today).1,
    ) {
        sorted_by(SortKey::Start, events + all_expansions(events, window_for(today, today).1))
    } else {
        sorted_by(SortKey::Start, events)
    }
}

/// The events that a check on the day `today` looks at: the events held,
/// with the occurrences of the recurring ones up to a year after today.
pub fn listing_for_check(events: &Vec<CalendarEvent>, today: Date) -> (listing: Vec<
    CalendarEvent,
>)
    ensures
        views(listing@) == events_to_check(views(events@), today),
{
    if InstanceCache::can_query(events, today, today) {
        let mut cache = InstanceCache::new();
        cache.query(events, today, today)
    } else {
        sort_events(SortKey::Start, events)
    }
}

/// Whether two lists hold the same events in the same order.
pub fn same_events(first: &Vec<CalendarEvent>, second: &Vec<CalendarEvent>) -> (same: bool)
    ensures
        same == (views(first@) == views(second@)),
{
    if first.len() != second.len() {
        assert(views(first@).len() != views(second@).len());
        return false;
    }
    let mut i: usize = 0;
    while i < first.len()
        invariant
            i <= first.len(),
            first.len() == second.len(),
            forall|k: int| 0 <= k < i ==> views(first@)[k] == views(second@)[k],
        decreases first.len() - i,
    {
        if !same_event(&first[i], &second[i]) {
            assert(views(first@)[i as int] != views(second@)[i as int]);
            return false;
        }
        i += 1;
    }
    assert(views(first@) =~= views(second@));
    true
}

/// Takes in the events as loaded again after a change on disk. Where they
/// differ from the events held, other than in their order, what was
/// announced is forgotten, so that changed events can be announced again.
pub fn replace_events(
    events: &mut Vec<CalendarEvent>,
    loaded: Vec<CalendarEvent>,
    notified: &mut Vec<NoticeKey>,
)
    ensures
        views(final(events)@) == sorted_by(SortKey::Start, views(loaded@)),
        key_views(final(notified)@) == if sorted_by(SortKey::Start, views(loaded@)) == sorted_by(
            SortKey::Start,
            views(old(events)@),
        ) {
            key_views(old(notified)@)
        } else {
            Seq::empty()
        },
{
    let sorted = sort_events(SortKey::Start, &loaded);
    let held = sort_events(SortKey::Start, events);
    if !same_events(&sorted, &held) {
        *notified = Vec::new();
        assert(key_views(notified@) =~= Seq::<NoticeKeyView>::empty());
    }
    *events = sorted;
}

} // verus!
