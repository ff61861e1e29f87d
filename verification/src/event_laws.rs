//! What each call of the set of pending events does to the times that are pending.

use vstd::prelude::*;

use crate::conduct_laws;
use crate::conduct_laws::{is_turn_of, some_pending};
use crate::evs::{AssetEvents, EventIntent, EventIntentKind, EventSet};
use crate::types::BacktestError;

verus! {

/// One time of the asset `i` is set to `t`, and nothing else changes: the first time is that of the
/// local data, then come those of the response, of the exchange's data and of the order.
pub open spec fn only_set(
    evs: Seq<AssetEvents>,
    i: int,
    which: int,
    t: i64,
    evs2: Seq<AssetEvents>,
) -> bool {
    &&& evs2.len() == evs.len()
    &&& forall|j: int| #![trigger evs2[j]] 0 <= j < evs.len() && j != i ==> evs2[j] == evs[j]
    &&& evs2[i].local_data == if which == 0 {
        t
    } else {
        evs[i].local_data
    }
    &&& evs2[i].local_order == if which == 1 {
        t
    } else {
        evs[i].local_order
    }
    &&& evs2[i].exch_data == if which == 2 {
        t
    } else {
        evs[i].exch_data
    }
    &&& evs2[i].exch_order == if which == 3 {
        t
    } else {
        evs[i].exch_order
    }
}

/// A new set has nothing pending for any of its assets.
pub proof fn a_new_set_has_nothing_pending(num_assets: usize, r: EventSet)
    requires
        call_ensures(EventSet::new, (num_assets,), r),
    ensures
        r@.len() == num_assets,
        !some_pending(r@),
{
}

/// The next event is the earliest that is pending. Of several at that time it is one of the asset
/// with the lowest number, and there local data comes before a response, the exchange's data, and
/// an order. There is none if and only if nothing is pending.
pub proof fn the_next_event_is_the_first_of_the_earliest(set: &EventSet, r: Option<EventIntent>)
    requires
        call_ensures(EventSet::next, (set,), r),
    ensures
        r is Some <==> some_pending(set@),
        r matches Some(ev) ==> {
            let i = ev.asset_no as int;
            let t = ev.timestamp;
            &&& is_turn_of(set@, i, t)
            &&& ev.kind == EventIntentKind::LocalData <==> set@[i].local_data == t
            &&& ev.kind == EventIntentKind::LocalOrder <==> {
                &&& set@[i].local_order == t
                &&& set@[i].local_data != t
            }
            &&& ev.kind == EventIntentKind::ExchData <==> {
                &&& set@[i].exch_data == t
                &&& set@[i].local_data != t
                &&& set@[i].local_order != t
            }
            &&& ev.kind == EventIntentKind::ExchOrder <==> {
                &&& set@[i].exch_order == t
                &&& set@[i].local_data != t
                &&& set@[i].local_order != t
                &&& set@[i].exch_data != t
            }
        },
{
    let evs = set@;
    match r {
        Some(ev) => {
            conduct_laws::lemma_turn(evs, ev);
            let asset = evs[ev.asset_no as int];
            assert(some_pending(evs));
        },
        None => {
            assert forall|a: int| #![trigger evs[a]] 0 <= a < evs.len() implies {
                &&& evs[a].local_data == i64::MAX
                &&& evs[a].local_order == i64::MAX
                &&& evs[a].exch_data == i64::MAX
                &&& evs[a].exch_order == i64::MAX
            } by {
                assert(evs[a].at(EventIntentKind::LocalData) == i64::MAX);
                assert(evs[a].at(EventIntentKind::LocalOrder) == i64::MAX);
                assert(evs[a].at(EventIntentKind::ExchData) == i64::MAX);
                assert(evs[a].at(EventIntentKind::ExchOrder) == i64::MAX);
            }
        },
    }
}

/// Each update sets the time that it is named after, and nothing else.
pub proof fn updates_set_one_time(
    a: &mut EventSet,
    b: &mut EventSet,
    c: &mut EventSet,
    d: &mut EventSet,
    asset_no: usize,
    t: i64,
)
    requires
        call_ensures(EventSet::update_local_data, (a, asset_no, t), ()),
        call_ensures(EventSet::update_local_order, (b, asset_no, t), ()),
        call_ensures(EventSet::update_exch_data, (c, asset_no, t), ()),
        call_ensures(EventSet::update_exch_order, (d, asset_no, t), ()),
        asset_no < old(a)@.len(),
        asset_no < old(b)@.len(),
        asset_no < old(c)@.len(),
        asset_no < old(d)@.len(),
    ensures
        only_set(old(a)@, asset_no as int, 0, t, final(a)@),
        only_set(old(b)@, asset_no as int, 1, t, final(b)@),
        only_set(old(c)@, asset_no as int, 2, t, final(c)@),
        only_set(old(d)@, asset_no as int, 3, t, final(d)@),
{
}

/// Data that is invalidated is not pending any more, and nothing else changes.
pub proof fn invalidated_data_is_not_pending(a: &mut EventSet, b: &mut EventSet, asset_no: usize)
    requires
        call_ensures(EventSet::invalidate_local_data, (a, asset_no), ()),
        call_ensures(EventSet::invalidate_exch_data, (b, asset_no), ()),
        asset_no < old(a)@.len(),
        asset_no < old(b)@.len(),
    ensures
        only_set(old(a)@, asset_no as int, 0, i64::MAX, final(a)@),
        only_set(old(b)@, asset_no as int, 2, i64::MAX, final(b)@),
{
}

/// What a feed answers sets when its next data is due, and the end of a feed that none is. Any
/// other error is handed back, and changes nothing.
pub open spec fn noted(
    evs: Seq<AssetEvents>,
    i: int,
    which: int,
    feed: Result<i64, BacktestError>,
    evs2: Seq<AssetEvents>,
    r: Result<(), BacktestError>,
) -> bool {
    match feed {
        Ok(t) => r is Ok && only_set(evs, i, which, t, evs2),
        Err(e) => if e == BacktestError::EndOfData {
            r is Ok && only_set(evs, i, which, i64::MAX, evs2)
        } else {
            r == Err::<(), BacktestError>(e) && evs2 == evs
        },
    }
}

/// The answers of the feeds are noted for their own side.
pub proof fn answers_of_feeds_are_noted(
    a: &mut EventSet,
    b: &mut EventSet,
    asset_no: usize,
    feed: Result<i64, BacktestError>,
    r: Result<(), BacktestError>,
    s: Result<(), BacktestError>,
)
    requires
        call_ensures(EventSet::note_local_data, (a, asset_no, feed), r),
        call_ensures(EventSet::note_exch_data, (b, asset_no, feed), s),
        asset_no < old(a)@.len(),
        asset_no < old(b)@.len(),
    ensures
        noted(old(a)@, asset_no as int, 0, feed, final(a)@, r),
        noted(old(b)@, asset_no as int, 2, feed, final(b)@, s),
{
}

/// The time of the next data is what a feed answered, without the rest of the answer.
pub proof fn the_next_timestamp_is_the_first_of_the_answer(
    feed: Result<(i64, i64), BacktestError>,
    r: Result<i64, BacktestError>,
)
    requires
        call_ensures(crate::run::next_timestamp, (feed,), r),
    ensures
        feed matches Ok((t, _)) ==> r == Ok::<i64, BacktestError>(t),
        feed matches Err(e) ==> r == Err::<i64, BacktestError>(e),
{
}

} // verus!
