//! Listings of events: the order of entries, and sorting that keeps entries
//! which rank alike in the order they were given in.

use crate::app::{views, CalendarEvent, EventView};
use vstd::prelude::*;

verus! {

/// What a listing is ordered by.
#[derive(Clone, Copy, PartialEq, Eq, Debug, Structural)]
pub enum SortKey {
    /// The start day, then the start time.
    Start,
    /// The time of day alone.
    Time,
}

/// Whether `first` starts before `second`: on an earlier day, or on the same
/// day at an earlier time.
pub open spec fn starts_before(first: EventView, second: EventView) -> bool {
    first.start_date.before(second.start_date) || (first.start_date == second.start_date
        && first.start_time.before(second.start_time))
}

/// Whether `first` ranks before `second` under `key`.
pub open spec fn comes_before(key: SortKey, first: EventView, second: EventView) -> bool {
    match key {
        SortKey::Start => starts_before(first, second),
        SortKey::Time => first.time.before(second.time),
    }
}

/// The place where `event` goes into a listing: before the first entry that
/// it ranks before, and at the end where there is none.
pub open spec fn insert_position(key: SortKey, listing: Seq<EventView>, event: EventView) -> int
    decreases listing.len(),
{
    if listing.len() == 0 || comes_before(key, event, listing[0]) {
        0
    } else {
        1 + insert_position(key, listing.drop_first(), event)
    }
}

/// The events in the order of `key`. Events that rank alike stay in the
/// order in which `events` has them.
pub open spec fn sorted_by(key: SortKey, events: Seq<EventView>) -> Seq<EventView>
    decreases events.len(),
{
    if events.len() == 0 {
        events
    } else {
        let listing = sorted_by(key, events.drop_last());
        listing.insert(insert_position(key, listing, events.last()), events.last())
    }
}

/// No entry of the listing ranks before an entry that stands ahead of it.
pub open spec fn is_ordered(key: SortKey, listing: Seq<EventView>) -> bool {
    forall|i: int, j: int|
        0 <= i < j < listing.len() ==> !comes_before(
            key,
            #[trigger] listing[j],
            #[trigger] listing[i],
        )
}

/// Where `insert_position` points: no entry ahead of it is one that the
/// event starts before, and the entry at it, if there is one, is.
pub proof fn lemma_insert_position(key: SortKey, listing: Seq<EventView>, event: EventView)
    ensures
        0 <= insert_position(key, listing, event) <= listing.len(),
        forall|i: int|
            0 <= i < insert_position(key, listing, event) ==> !comes_before(key, event, #[trigger] listing[i]),
        insert_position(key, listing, event) < listing.len() ==> comes_before(
            key,
            event,
            listing[insert_position(key, listing, event)],
        ),
    decreases listing.len(),
{
    if listing.len() == 0 || comes_before(key, event, listing[0]) {
    } else {
        let rest = listing.drop_first();
        lemma_insert_position(key, rest, event);
        assert forall|i: int| 0 <= i < insert_position(key, listing, event) implies !comes_before(
            key,
            event,
            #[trigger] listing[i],
        ) by {
            if i > 0 {
                assert(listing[i] == rest[i - 1]);
            }
        }
    }
}

/// A sorted listing is in the order of its key, and holds exactly the
/// events that were given, each as often as it was given.
pub proof fn lemma_sorted_by(key: SortKey, events: Seq<EventView>)
    ensures
        is_ordered(key, sorted_by(key, events)),
        sorted_by(key, events).len() == events.len(),
        sorted_by(key, events).to_multiset() == events.to_multiset(),
    decreases events.len(),
{
    broadcast use vstd::seq_lib::group_to_multiset_ensures;

    if events.len() > 0 {
        let listing = sorted_by(key, events.drop_last());
        let event = events.last();
        let at = insert_position(key, listing, event);
        lemma_sorted_by(key, events.drop_last());
        lemma_insert_position(key, listing, event);
        let sorted = listing.insert(at, event);
        listing.insert_ensures(at, event);
        assert forall|i: int, j: int| 0 <= i < j < sorted.len() implies !comes_before(
            key,
            #[trigger] sorted[j],
            #[trigger] sorted[i],
        ) by {
            if j < at {
                assert(sorted[i] == listing[i] && sorted[j] == listing[j]);
            } else if j == at {
                assert(sorted[i] == listing[i]);
            } else if i < at {
                assert(sorted[i] == listing[i] && sorted[j] == listing[j - 1]);
            } else if i == at {
                assert(sorted[j] == listing[j - 1]);
                assert(comes_before(key, event, listing[at]));
                if j - 1 > at {
                    assert(!comes_before(key, listing[j - 1], listing[at]));
                }
            } else {
                assert(sorted[i] == listing[i - 1] && sorted[j] == listing[j - 1]);
            }
        }
        assert(sorted.remove(at) =~= listing);
        assert(sorted.remove(at).to_multiset() == sorted.to_multiset().remove(event));
        assert(sorted.to_multiset() =~= listing.to_multiset().insert(event));
        assert(events =~= events.drop_last().push(event));
        assert(events.to_multiset() =~= events.drop_last().to_multiset().insert(event));
    }
}

/// Whether `first` ranks before `second` under `key`.
pub fn event_comes_before(key: SortKey, first: &CalendarEvent, second: &CalendarEvent) -> (earlier:
    bool)
    ensures
        earlier == comes_before(key, first@, second@),
{
    match key {
        SortKey::Start => first.start_date.is_before(second.start_date) || (first.start_date
            == second.start_date && first.start_time.is_before(second.start_time)),
        SortKey::Time => first.time.is_before(second.time),
    }
}

/// Puts `event` into a listing at its place under `key`.
pub fn insert_sorted(key: SortKey, listing: &mut Vec<CalendarEvent>, event: CalendarEvent)
    ensures
        views(final(listing)@) == views(old(listing)@).insert(
            insert_position(key, views(old(listing)@), event@),
            event@,
        ),
{
    let mut at: usize = 0;
    let ghost all = views(listing@);
    assert(all.skip(0) == all);
    while at < listing.len() && !event_comes_before(key, &event, &listing[at])
        invariant
            at <= listing.len(),
            all == views(listing@),
            listing@ == old(listing)@,
            insert_position(key, all, event@) == at + insert_position(
                key,
                all.skip(at as int),
                event@,
            ),
        decreases listing.len() - at,
    {
        assert(all.skip(at as int)[0] == listing@[at as int]@);
        assert(all.skip(at as int).drop_first() == all.skip(at + 1));
        at += 1;
    }
    proof {
        if at < listing.len() {
            assert(all.skip(at as int)[0] == listing@[at as int]@);
        }
    }
    listing.insert(at, event);
    assert(views(listing@) =~= all.insert(at as int, event@));
}

/// Adds copies of `more` to a listing, each at its place under `key`.
pub(crate) fn merge_sorted(
    key: SortKey,
    listing: &mut Vec<CalendarEvent>,
    more: &Vec<CalendarEvent>,
    Ghost(before): Ghost<Seq<EventView>>,
)
    requires
        views(old(listing)@) == sorted_by(key, before),
    ensures
        views(final(listing)@) == sorted_by(key, before + views(more@)),
{
    let mut i: usize = 0;
    assert(before + views(more@).take(0) =~= before);
    while i < more.len()
        invariant
            i <= more.len(),
            views(listing@) == sorted_by(key, before + views(more@).take(i as int)),
        decreases more.len() - i,
    {
        let ghost next = before + views(more@).take(i + 1);
        assert(next.drop_last() =~= before + views(more@).take(i as int));
        assert(next.last() == more@[i as int]@);
        insert_sorted(key, listing, more[i].clone());
        i += 1;
    }
    assert(views(more@).take(more.len() as int) =~= views(more@));
}

/// The events in the order of `key`, as copies.
pub fn sort_events(key: SortKey, events: &Vec<CalendarEvent>) -> (listing: Vec<CalendarEvent>)
    ensures
        views(listing@) == sorted_by(key, views(events@)),
{
    let mut listing: Vec<CalendarEvent> = Vec::new();
    assert(views(listing@) =~= sorted_by(key, Seq::<EventView>::empty()));
    merge_sorted(key, &mut listing, events, Ghost(Seq::empty()));
    assert(Seq::<EventView>::empty() + views(events@) =~= views(events@));
    listing
}

} // verus!
