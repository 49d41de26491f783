//! The order in which events are shown: by the instant at which they start,
//! and, among events that start at the same instant, as they were given.

use vstd::prelude::*;
use crate::calendar::Timestamp;
use crate::event::{views, Event, EventView};

verus! {

/// No event of `events` starts before one that stands in front of it.
pub open spec fn in_order(events: Seq<EventView>) -> bool {
    forall|i: int, j: int|
        0 <= i <= j < events.len() ==> (#[trigger] events[i]).timestamp.not_after(
            (#[trigger] events[j]).timestamp,
        )
}

/// The events of `events` that start at `instant`, in the order of `events`.
pub open spec fn starting_at(events: Seq<EventView>, instant: Timestamp) -> Seq<EventView> {
    events.filter(|e: EventView| e.timestamp == instant)
}

/// `sorted` holds the events of `given`, each as often as `given` does, by
/// the instant at which they start; events that start at the same instant
/// stand as they stand in `given`.
pub open spec fn is_stable_sort_of(sorted: Seq<EventView>, given: Seq<EventView>) -> bool {
    &&& in_order(sorted)
    &&& sorted.to_multiset() == given.to_multiset()
    &&& forall|instant: Timestamp| #[trigger]
        starting_at(sorted, instant) == starting_at(given, instant)
}

/// An event put in behind everything that starts at another instant than it
/// does stands first among the events that start at its instant.
proof fn lemma_insert_starting_at(events: Seq<EventView>, at: int, event: EventView, instant: Timestamp)
    requires
        0 <= at <= events.len(),
        forall|i: int| 0 <= i < at ==> (#[trigger] events[i]).timestamp != event.timestamp,
    ensures
        starting_at(events.insert(at, event), instant) == starting_at(seq![event] + events, instant),
{
    let pred = |e: EventView| e.timestamp == instant;
    let front = events.subrange(0, at);
    let back = events.subrange(at, events.len() as int);
    let one = seq![event];
    assert(events =~= front + back);
    assert(events.insert(at, event) =~= (front + one) + back);
    assert(one + events =~= (one + front) + back);
    Seq::filter_distributes_over_add(front + one, back, pred);
    Seq::filter_distributes_over_add(front, one, pred);
    Seq::filter_distributes_over_add(one + front, back, pred);
    Seq::filter_distributes_over_add(one, front, pred);
    if instant == event.timestamp {
        front.lemma_all_neg_filter_empty(pred);
        assert(front.filter(pred) + one.filter(pred) =~= one.filter(pred) + front.filter(pred));
    } else {
        one.lemma_all_neg_filter_empty(pred);
        assert(front.filter(pred) + one.filter(pred) =~= one.filter(pred) + front.filter(pred));
    }
}

/// Puts `events` in the order in which they are shown.
pub fn sort_by_start(events: Vec<Event>) -> (sorted: Vec<Event>)
    ensures
        is_stable_sort_of(views(sorted@), views(events@)),
        sorted@.len() == events@.len(),
{
    let ghost given = events@;
    let mut rest = events;
    let mut sorted: Vec<Event> = Vec::new();
    proof {
        assert(given.subrange(given.len() as int, given.len() as int) =~= Seq::<Event>::empty());
        assert(views(Seq::<Event>::empty()) =~= Seq::<EventView>::empty());
        assert(rest@ =~= given.subrange(0, given.len() as int));
        assert(views(rest@) + views(sorted@) =~= views(given));
    }
    while rest.len() > 0
        invariant
            rest@.len() <= given.len(),
            rest@ == given.subrange(0, rest@.len() as int),
            in_order(views(sorted@)),
            forall|instant: Timestamp| #[trigger]
                starting_at(views(sorted@), instant) == starting_at(
                    views(given.subrange(rest@.len() as int, given.len() as int)),
                    instant,
                ),
            (views(rest@) + views(sorted@)).to_multiset() == views(given).to_multiset(),
            rest@.len() + sorted@.len() == given.len(),
        decreases rest.len(),
    {
        let ghost before = sorted@;
        let ghost left = rest@;
        let event = rest.pop().unwrap();
        let mut at: usize = 0;
        while at < sorted.len() && event.timestamp.is_after(&sorted[at].timestamp)
            invariant
                at <= sorted.len(),
                forall|i: int|
                    0 <= i < at ==> !event.timestamp.not_after((#[trigger] sorted[i]).timestamp),
            decreases sorted.len() - at,
        {
            at += 1;
        }
        sorted.insert(at, event);
        proof {
            let k = rest@.len() as int;
            let tail = given.subrange(k + 1, given.len() as int);
            let new_tail = given.subrange(k, given.len() as int);
            assert(event == given[k]);
            assert(new_tail =~= seq![event] + tail);
            assert(views(new_tail) =~= seq![event@] + views(tail));
            assert(views(sorted@) =~= views(before).insert(at as int, event@));
            assert(rest@ =~= given.subrange(0, k));
            assert forall|i: int| 0 <= i < at implies (#[trigger] views(before)[i]).timestamp
                != event@.timestamp by {
                assert(views(before)[i].timestamp == before[i].timestamp);
            }
            assert forall|instant: Timestamp| #[trigger]
                starting_at(views(sorted@), instant) == starting_at(views(new_tail), instant) by {
                lemma_insert_starting_at(views(before), at as int, event@, instant);
                assert(starting_at(views(before), instant) == starting_at(views(tail), instant));
                let pred = |e: EventView| e.timestamp == instant;
                Seq::filter_distributes_over_add(seq![event@], views(before), pred);
                Seq::filter_distributes_over_add(seq![event@], views(tail), pred);
            }
            assert forall|i: int, j: int| 0 <= i <= j < views(sorted@).len() implies (
            #[trigger] views(sorted@)[i]).timestamp.not_after(
                (#[trigger] views(sorted@)[j]).timestamp,
            ) by {
                let a = at as int;
                let vb = views(before);
                if i < a && j > a {
                    assert(vb[i].timestamp.not_after(vb[j - 1].timestamp));
                } else if i < a && j < a {
                    assert(vb[i].timestamp.not_after(vb[j].timestamp));
                } else if i < a && j == a {
                    assert(vb[i].timestamp == before[i].timestamp);
                } else if i == a && j > a {
                    assert(vb[a].timestamp == before[a].timestamp);
                    assert(vb[a].timestamp.not_after(vb[j - 1].timestamp));
                } else if i > a {
                    assert(vb[i - 1].timestamp.not_after(vb[j - 1].timestamp));
                }
            }
            assert(left =~= rest@.push(event));
            let shorter = views(rest@);
            let longer = views(left);
            assert(longer =~= shorter + seq![event@]);
            assert((shorter + views(sorted@)).to_multiset() =~= (longer + views(before)).to_multiset())
                by {
                broadcast use vstd::seq_lib::group_to_multiset_ensures;
                vstd::seq_lib::lemma_multiset_commutative(shorter, views(sorted@));
                vstd::seq_lib::lemma_multiset_commutative(longer, views(before));
                vstd::seq_lib::lemma_multiset_commutative(shorter, seq![event@]);
            }
        }
    }
    proof {
        assert(views(rest@) + views(sorted@) =~= views(sorted@));
        assert(given.subrange(0, given.len() as int) =~= given);
    }
    sorted
}

/// Where the events of `events` that start at `instant` are not none, one of
/// `events` starts at `instant`.
proof fn lemma_starting_at_witness(events: Seq<EventView>, instant: Timestamp) -> (i: int)
    requires
        starting_at(events, instant).len() > 0,
    ensures
        0 <= i < events.len(),
        events[i].timestamp == instant,
{
    let pred = |e: EventView| e.timestamp == instant;
    let found = events.filter(pred)[0];
    events.lemma_filter_pred(pred, 0);
    assert(events.filter(pred).contains(found));
    events.lemma_filter_contains_rev(pred, found);
    choose|i: int| 0 <= i < events.len() && events[i] == found
}

/// What taking the last event away does to the events that start at
/// `instant`.
proof fn lemma_starting_at_last(events: Seq<EventView>, instant: Timestamp)
    requires
        events.len() > 0,
    ensures
        starting_at(events, instant) == if events.last().timestamp == instant {
            starting_at(events.drop_last(), instant).push(events.last())
        } else {
            starting_at(events.drop_last(), instant)
        },
{
    reveal(Seq::filter);
}

/// Two sequences in order that agree, for every instant, on the events that
/// start then are the same sequence.
proof fn lemma_same_groups(a: Seq<EventView>, b: Seq<EventView>)
    requires
        in_order(a),
        in_order(b),
        forall|instant: Timestamp| #[trigger] starting_at(a, instant) == starting_at(b, instant),
    ensures
        a == b,
    decreases a.len(),
{
    if a.len() == 0 {
        if b.len() > 0 {
            let t = b.last().timestamp;
            lemma_starting_at_last(b, t);
            assert(starting_at(a, t) == starting_at(b, t));
            a.lemma_filter_len(|e: EventView| e.timestamp == t);
        }
        assert(a =~= b);
    } else {
        let ta = a.last().timestamp;
        lemma_starting_at_last(a, ta);
        assert(starting_at(a, ta) == starting_at(b, ta));
        let j = lemma_starting_at_witness(b, ta);
        let tb = b.last().timestamp;
        lemma_starting_at_last(b, tb);
        assert(starting_at(a, tb) == starting_at(b, tb));
        let i = lemma_starting_at_witness(a, tb);
        assert(b[j].timestamp.not_after(b[b.len() - 1].timestamp));
        assert(a[i].timestamp.not_after(a[a.len() - 1].timestamp));
        assert(ta == tb);
        let a0 = a.drop_last();
        let b0 = b.drop_last();
        let ga = starting_at(a0, ta);
        let gb = starting_at(b0, ta);
        assert(ga.push(a.last()) == gb.push(b.last()));
        assert(ga =~= ga.push(a.last()).drop_last());
        assert(gb =~= gb.push(b.last()).drop_last());
        assert(a.last() == ga.push(a.last()).last());
        assert(b.last() == gb.push(b.last()).last());
        assert forall|instant: Timestamp| #[trigger]
            starting_at(a0, instant) == starting_at(b0, instant) by {
            lemma_starting_at_last(a, instant);
            lemma_starting_at_last(b, instant);
            assert(starting_at(a, instant) == starting_at(b, instant));
        }
        assert forall|x: int, y: int| 0 <= x <= y < a0.len() implies (#[trigger] a0[x]).timestamp.not_after(
            (#[trigger] a0[y]).timestamp,
        ) by {
            assert(a[x].timestamp.not_after(a[y].timestamp));
        }
        assert forall|x: int, y: int| 0 <= x <= y < b0.len() implies (#[trigger] b0[x]).timestamp.not_after(
            (#[trigger] b0[y]).timestamp,
        ) by {
            assert(b[x].timestamp.not_after(b[y].timestamp));
        }
        lemma_same_groups(a0, b0);
        assert(a =~= a0.push(a.last()));
        assert(b =~= b0.push(b.last()));
    }
}

/// The order in which events are shown is fixed by the events that are
/// given: any two sequences that are a stable sort of the same events are
/// equal.
pub proof fn lemma_stable_sort_unique(a: Seq<EventView>, b: Seq<EventView>, given: Seq<EventView>)
    requires
        is_stable_sort_of(a, given),
        is_stable_sort_of(b, given),
    ensures
        a == b,
{
    assert forall|instant: Timestamp| #[trigger]
        starting_at(a, instant) == starting_at(b, instant) by {
        assert(starting_at(a, instant) == starting_at(given, instant));
        assert(starting_at(b, instant) == starting_at(given, instant));
    }
    lemma_same_groups(a, b);
}

/// A stable sort is as long as what it sorts.
pub proof fn lemma_stable_sort_len(sorted: Seq<EventView>, given: Seq<EventView>)
    requires
        is_stable_sort_of(sorted, given),
    ensures
        sorted.len() == given.len(),
{
    vstd::seq_lib::to_multiset_len(sorted);
    vstd::seq_lib::to_multiset_len(given);
}

/// Events that are in order already are their own stable sort: sorting them
/// again changes nothing.
pub proof fn lemma_sorted_is_own_sort(events: Seq<EventView>)
    requires
        in_order(events),
    ensures
        is_stable_sort_of(events, events),
{
}

} // verus!
