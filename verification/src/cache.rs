//! The instance cache: the occurrences generated for one window of dates,
//! kept so that a range that was asked for before is answered without
//! expanding every recurring event again.

use crate::app::{views, CalendarEvent, EventView, Recurrence};
use crate::calendar::{
    lemma_day_number_bounds, lemma_plus_days, max_day_number, min_day_number, Date,
};
use crate::listing::{merge_sorted, sort_events, sorted_by, SortKey};
use crate::persistence::{expansion, generate_recurring_instances, span_fits};
use vstd::prelude::*;

verus! {

/// The days by which the cached window reaches beyond the range asked for,
/// at either end.
pub const BUFFER_DAYS: i64 = 365;

/// The window, if any, whose occurrences are held, and those occurrences.
pub struct InstanceCache {
    pub cached_range: Option<(Date, Date)>,
    pub cached_instances: Vec<CalendarEvent>,
}

/// What a cache holds, with its occurrences as views.
#[verifier::ext_equal]
pub struct CacheView {
    pub window: Option<(Date, Date)>,
    pub instances: Seq<EventView>,
}

impl CacheView {
    /// A cache without window holds no occurrences.
    pub open spec fn is_consistent(self) -> bool {
        self.window is None ==> self.instances.len() == 0
    }
}

impl View for InstanceCache {
    type V = CacheView;

    open spec fn view(&self) -> CacheView {
        CacheView { window: self.cached_range, instances: views(self.cached_instances@) }
    }
}

/// The occurrences of every event of the list up to `until`, event after
/// event.
pub open spec fn all_expansions(events: Seq<EventView>, until: Date) -> Seq<EventView>
    decreases events.len(),
{
    if events.len() == 0 {
        Seq::empty()
    } else {
        all_expansions(events.drop_last(), until) + expansion(events.last(), until)
    }
}

/// The window generated for a range: the range with the buffer added at
/// either end.
pub open spec fn window_for(range_start: Date, range_end: Date) -> (Date, Date) {
    (range_start.plus_days(-BUFFER_DAYS), range_end.plus_days(BUFFER_DAYS as int))
}

/// Whether both ends of the window for a range are dates that can be held.
pub open spec fn window_fits(range_start: Date, range_end: Date) -> bool {
    min_day_number() <= range_start.day_number() - BUFFER_DAYS && range_end.day_number()
        + BUFFER_DAYS <= max_day_number()
}

/// Whether every event is valid and every recurring one can be expanded up
/// to `until`.
pub open spec fn expandable(events: Seq<EventView>, until: Date) -> bool {
    forall|i: int|
        0 <= i < events.len() ==> (#[trigger] events[i]).is_valid() && (events[i].recurrence
            != Recurrence::Never ==> span_fits(events[i], until))
}

/// The cache after a query for a range: it holds the window for that range;
/// its occurrences are the ones it held, where it held that window already,
/// and the expansions of the events up to the window's end otherwise.
pub open spec fn cache_after_query(
    cache: CacheView,
    events: Seq<EventView>,
    range_start: Date,
    range_end: Date,
) -> CacheView {
    let window = window_for(range_start, range_end);
    if cache.window == Some(window) {
        cache
    } else {
        CacheView { window: Some(window), instances: all_expansions(events, window.1) }
    }
}

/// What a query returns from the cache it leaves behind: every event of the
/// list and every cached occurrence, in order of start day and time; among
/// entries that start together the events come first, then the occurrences,
/// each group in its own order.
pub open spec fn query_result(cache: CacheView, events: Seq<EventView>) -> Seq<EventView> {
    sorted_by(SortKey::Start, events + cache.instances)
}

/// Whether a cached occurrence belongs to `event`: it has the event's title,
/// and the event's start day as its origin.
pub open spec fn belongs_to(occurrence: EventView, event: EventView) -> bool {
    occurrence.title == event.title && occurrence.base_date == Some(event.start_date)
}

/// The test that keeps the occurrences which do not belong to `event`.
pub open spec fn not_of(event: EventView) -> spec_fn(EventView) -> bool {
    |occurrence: EventView| !belongs_to(occurrence, event)
}

/// The cache after an invalidation: empty and without window where no event
/// is given; otherwise the same window, and the occurrences that do not
/// belong to the event, in their order.
pub open spec fn cache_after_invalidate(cache: CacheView, scope: Option<EventView>) -> CacheView {
    match scope {
        None => CacheView { window: None, instances: Seq::empty() },
        Some(event) => CacheView {
            window: cache.window,
            instances: cache.instances.filter(not_of(event)),
        },
    }
}

/// Window and occurrences go together: a cache without window holds no
/// occurrences when it is new, after every query, and after every
/// invalidation of a cache of which this held.
pub proof fn lemma_cache_consistent(
    cache: CacheView,
    events: Seq<EventView>,
    range_start: Date,
    range_end: Date,
    scope: Option<EventView>,
)
    ensures
        (CacheView { window: None, instances: Seq::empty() }).is_consistent(),
        cache.is_consistent() ==> cache_after_query(
            cache,
            events,
            range_start,
            range_end,
        ).is_consistent(),
        cache.is_consistent() ==> cache_after_invalidate(cache, scope).is_consistent(),
{
    if let Some(event) = scope {
        cache.instances.lemma_filter_len(not_of(event));
    }
}

/// What a query returns is in order of start day and time, and holds every
/// event and every cached occurrence, each as often as it was given.
pub proof fn lemma_query_result_sorted(cache: CacheView, events: Seq<EventView>)
    ensures
        crate::listing::is_ordered(SortKey::Start, query_result(cache, events)),
        query_result(cache, events).len() == events.len() + cache.instances.len(),
        query_result(cache, events).to_multiset() == (events + cache.instances).to_multiset(),
{
    crate::listing::lemma_sorted_by(SortKey::Start, events + cache.instances);
}

/// Asking twice for the same range, with no change to events or cache in
/// between, leaves the cache as the first query left it, window and
/// occurrences, and returns the same listing both times.
pub proof fn lemma_query_idempotent(
    cache: CacheView,
    events: Seq<EventView>,
    range_start: Date,
    range_end: Date,
)
    ensures
        ({
            let first = cache_after_query(cache, events, range_start, range_end);
            let second = cache_after_query(first, events, range_start, range_end);
            &&& second == first
            &&& second.window == first.window
            &&& query_result(second, events) == query_result(first, events)
        }),
{
}

/// After the occurrences of one event were invalidated, the cache holds no
/// occurrence with that event's title and start day as origin; every other
/// occurrence that it held is still there; and its window is unchanged.
pub proof fn lemma_selective_invalidation(cache: CacheView, event: EventView)
    ensures
        ({
            let after = cache_after_invalidate(cache, Some(event));
            &&& after.window == cache.window
            &&& forall|i: int|
                0 <= i < after.instances.len() ==> !belongs_to(#[trigger] after.instances[i], event)
            &&& forall|i: int|
                0 <= i < cache.instances.len() && !belongs_to(#[trigger] cache.instances[i], event)
                    ==> after.instances.contains(cache.instances[i])
            &&& forall|i: int|
                0 <= i < after.instances.len() ==> cache.instances.contains(
                    #[trigger] after.instances[i],
                )
        }),
{
    let after = cache_after_invalidate(cache, Some(event));
    let keep = not_of(event);
    assert forall|i: int| 0 <= i < after.instances.len() implies !belongs_to(
        #[trigger] after.instances[i],
        event,
    ) && cache.instances.contains(after.instances[i]) by {
        cache.instances.lemma_filter_pred(keep, i);
        cache.instances.lemma_filter_contains_rev(keep, after.instances[i]);
    }
    assert forall|i: int|
        0 <= i < cache.instances.len() && !belongs_to(
            #[trigger] cache.instances[i],
            event,
        ) implies after.instances.contains(cache.instances[i]) by {
        cache.instances.lemma_filter_contains(keep, i);
    }
}

/// After everything was invalidated the cache holds no occurrence and no
/// window, and the next query generates the occurrences of its window anew.
pub proof fn lemma_full_invalidation(
    cache: CacheView,
    events: Seq<EventView>,
    range_start: Date,
    range_end: Date,
)
    ensures
        ({
            let after = cache_after_invalidate(cache, None);
            let next = cache_after_query(after, events, range_start, range_end);
            &&& after.instances.len() == 0
            &&& after.window is None
            &&& next.window == Some(window_for(range_start, range_end))
            &&& next.instances == all_expansions(events, window_for(range_start, range_end).1)
        }),
{
}

impl InstanceCache {
    /// A cache that holds nothing.
    pub fn new() -> (cache: Self)
        ensures
            cache@.window is None,
            cache@.instances.len() == 0,
    {
        InstanceCache { cached_range: None, cached_instances: Vec::new() }
    }

    /// Whether `query` can be asked for this range over these events: the
    /// window's ends can be held, every event is valid, and every recurring
    /// event can be expanded up to the window's end.
    pub fn can_query(events: &Vec<CalendarEvent>, range_start: Date, range_end: Date) -> (can:
        bool)
        ensures
            can == (range_start.is_valid() && range_end.is_valid() && window_fits(
                range_start,
                range_end,
            ) && expandable(views(events@), window_for(range_start, range_end).1)),
    {
        if !range_start.check_valid() || !range_end.check_valid() {
            return false;
        }
        proof {
            lemma_day_number_bounds(range_start);
            lemma_day_number_bounds(range_end);
        }
        let window_end = match (
            range_start.checked_add_days(-BUFFER_DAYS),
            range_end.checked_add_days(BUFFER_DAYS),
        ) {
            (Some(_), Some(end)) => {
                proof {
                    lemma_plus_days(range_end, BUFFER_DAYS as int, end);
                }
                end
            },
            _ => {
                return false;
            },
        };
        let mut i: usize = 0;
        while i < events.len()
            invariant
                i <= events.len(),
                window_end.is_valid(),
                window_end == window_for(range_start, range_end).1,
                forall|k: int|
                    0 <= k < i ==> (#[trigger] views(events@)[k]).is_valid() && (views(
                        events@,
                    )[k].recurrence != Recurrence::Never ==> span_fits(views(events@)[k], window_end)),
            decreases events.len() - i,
        {
            assert(views(events@)[i as int] == events@[i as int]@);
            assert(window_end == window_for(range_start, range_end).1);
            if !events[i].check_valid() {
                return false;
            }
            if events[i].recurrence != Recurrence::Never && !events[i].spans_until(window_end) {
                return false;
            }
            i += 1;
        }
        true
    }

    /// Every event of `events` and every occurrence of the recurring ones
    /// within the window around the range, in order of start day and time.
    ///
    /// The window is the range with `BUFFER_DAYS` added at either end. Where
    /// the cache holds that very window, its occurrences are used as they
    /// are; otherwise every recurring event is expanded up to the window's
    /// end, and the cache holds the new window and occurrences. Among
    /// entries that start together, the events come before the occurrences,
    /// each group in its own order.
    pub fn query(
        &mut self,
        events: &Vec<CalendarEvent>,
        range_start: Date,
        range_end: Date,
    ) -> (listing: Vec<CalendarEvent>)
        requires
            range_start.is_valid(),
            range_end.is_valid(),
            window_fits(range_start, range_end),
            expandable(views(events@), window_for(range_start, range_end).1),
        ensures
            final(self)@ == cache_after_query(old(self)@, views(events@), range_start, range_end),
            views(listing@) == query_result(final(self)@, views(events@)),
    {
        proof {
            lemma_day_number_bounds(range_start);
            lemma_day_number_bounds(range_end);
        }
        let window_start = range_start.checked_add_days(-BUFFER_DAYS).unwrap();
        let window_end = range_end.checked_add_days(BUFFER_DAYS).unwrap();
        proof {
            lemma_plus_days(range_start, -BUFFER_DAYS, window_start);
            lemma_plus_days(range_end, BUFFER_DAYS as int, window_end);
        }
        let hit = match self.cached_range {
            Some((start, end)) => start == window_start && end == window_end,
            None => false,
        };
        if !hit {
            let mut instances: Vec<CalendarEvent> = Vec::new();
            let mut i: usize = 0;
            assert(views(events@).take(0) =~= Seq::<EventView>::empty());
            assert(views(instances@) =~= Seq::<EventView>::empty());
            while i < events.len()
                invariant
                    i <= events.len(),
                    window_end.is_valid(),
                    expandable(views(events@), window_end),
                    views(instances@) == all_expansions(views(events@).take(i as int), window_end),
                decreases events.len() - i,
            {
                let ghost next = views(events@).take(i + 1);
                assert(next.drop_last() =~= views(events@).take(i as int));
                assert(next.last() == events@[i as int]@);
                assert(views(events@)[i as int] == events@[i as int]@);
                if events[i].recurrence != Recurrence::Never {
                    let mut more = generate_recurring_instances(&events[i], window_end);
                    proof {
                        assert(views(instances@ + more@) =~= views(instances@) + views(more@));
                    }
                    instances.append(&mut more);
                } else {
                    assert(expansion(events@[i as int]@, window_end) =~= Seq::<EventView>::empty());
                    assert(views(instances@) + Seq::<EventView>::empty() =~= views(instances@));
                }
                i += 1;
            }
            assert(views(events@).take(events.len() as int) =~= views(events@));
            self.cached_instances = instances;
            self.cached_range = Some((window_start, window_end));
        }
        let mut listing = sort_events(SortKey::Start, events);
        merge_sorted(SortKey::Start, &mut listing, &self.cached_instances, Ghost(views(events@)));
        listing
    }

    /// Forgets cached occurrences. Without an event, all of them go and the
    /// window with them, so that the next query generates anew. With an
    /// event, the occurrences that have its title and its start day as their
    /// origin go; the others stay, in their order, and so does the window.
    pub fn invalidate(&mut self, scope: Option<&CalendarEvent>)
        ensures
            final(self)@ == cache_after_invalidate(
                old(self)@,
                match scope {
                    Some(event) => Some(event@),
                    None => None,
                },
            ),
    {
        match scope {
            None => {
                self.cached_instances = Vec::new();
                self.cached_range = None;
                assert(views(self.cached_instances@) =~= Seq::<EventView>::empty());
            },
            Some(event) => {
                let mut kept: Vec<CalendarEvent> = Vec::new();
                let mut i: usize = 0;
                let ghost held = views(self.cached_instances@);
                assert(held.take(0) =~= Seq::<EventView>::empty());
                assert(views(kept@) =~= Seq::<EventView>::empty());
                proof {
                    reveal(Seq::filter);
                }
                assert(Seq::<EventView>::empty().filter(not_of(event@)) =~= Seq::<
                    EventView,
                >::empty());
                while i < self.cached_instances.len()
                    invariant
                        i <= self.cached_instances.len(),
                        held == views(self.cached_instances@),
                        self.cached_range == old(self).cached_range,
                        self.cached_instances == old(self).cached_instances,
                        views(kept@) == held.take(i as int).filter(not_of(event@)),
                    decreases self.cached_instances.len() - i,
                {
                    let occurrence = &self.cached_instances[i];
                    proof {
                        assert(held.take(i + 1) =~= held.take(i as int).push(occurrence@));
                        held.take(i as int).lemma_filter_push(occurrence@, not_of(event@));
                    }
                    let belongs = occurrence.title == event.title && occurrence.base_date == Some(
                        event.start_date,
                    );
                    if !belongs {
                        kept.push(occurrence.clone());
                        assert(views(kept@) =~= held.take(i as int).filter(not_of(event@)).push(
                            occurrence@,
                        ));
                    }
                    i += 1;
                }
                assert(held.take(self.cached_instances.len() as int) =~= held);
                self.cached_instances = kept;
            },
        }
    }
}

} // verus!
