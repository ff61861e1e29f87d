//! The set of pending event timestamps, out of which the next event is taken.

use vstd::prelude::*;

use crate::types::BacktestError;

verus! {

/// What kind of event is due for an asset.
#[derive(Clone, Copy, Debug, PartialEq, Eq, Structural)]
pub enum EventIntentKind {
    /// The local side is to receive market data.
    LocalData,
    /// The local side is to receive an order response.
    LocalOrder,
    /// The exchange side is to process market data.
    ExchData,
    /// The exchange side is to receive an order.
    ExchOrder,
}

/// The event to be processed next.
#[derive(Clone, Copy, Debug, PartialEq, Eq, Structural)]
pub struct EventIntent {
    pub timestamp: i64,
    pub asset_no: usize,
    pub kind: EventIntentKind,
}

/// When the next event of each kind is due for one asset. `i64::MAX` means that none is.
#[derive(Clone, Copy, Debug, PartialEq, Eq, Structural)]
pub struct AssetEvents {
    pub local_data: i64,
    pub local_order: i64,
    pub exch_data: i64,
    pub exch_order: i64,
}

impl AssetEvents {
    /// When the event of the given kind is due.
    pub open spec fn at(self, kind: EventIntentKind) -> i64 {
        match kind {
            EventIntentKind::LocalData => self.local_data,
            EventIntentKind::LocalOrder => self.local_order,
            EventIntentKind::ExchData => self.exch_data,
            EventIntentKind::ExchOrder => self.exch_order,
        }
    }

    /// No event is due.
    pub open spec fn idle() -> Self {
        AssetEvents {
            local_data: i64::MAX,
            local_order: i64::MAX,
            exch_data: i64::MAX,
            exch_order: i64::MAX,
        }
    }
}

/// The place of a kind among events that are due at the same time for the same asset.
pub open spec fn kind_rank(kind: EventIntentKind) -> int {
    match kind {
        EventIntentKind::LocalData => 0,
        EventIntentKind::LocalOrder => 1,
        EventIntentKind::ExchData => 2,
        EventIntentKind::ExchOrder => 3,
    }
}

/// Of two events that are due at the same time, the first is taken before the second: assets are
/// served in their order, and the kinds of one asset in the order of `kind_rank`.
pub open spec fn precedes(a: int, k: EventIntentKind, b: int, l: EventIntentKind) -> bool {
    a < b || (a == b && kind_rank(k) < kind_rank(l))
}

/// `ev` is the first of the earliest pending events.
pub open spec fn is_next_event(evs: Seq<AssetEvents>, ev: EventIntent) -> bool {
    &&& ev.asset_no < evs.len()
    &&& ev.timestamp == evs[ev.asset_no as int].at(ev.kind)
    &&& ev.timestamp < i64::MAX
    &&& forall|a: int, k: EventIntentKind|
        #![trigger evs[a].at(k)]
        0 <= a < evs.len() ==> {
            &&& ev.timestamp <= evs[a].at(k)
            &&& precedes(a, k, ev.asset_no as int, ev.kind) ==> ev.timestamp < evs[a].at(k)
        }
}

/// No event is pending.
pub open spec fn no_event(evs: Seq<AssetEvents>) -> bool {
    forall|a: int, k: EventIntentKind|
        #![trigger evs[a].at(k)]
        0 <= a < evs.len() ==> evs[a].at(k) == i64::MAX
}

/// `next` is what is pending next in `evs`.
pub open spec fn next_event_is(evs: Seq<AssetEvents>, next: Option<EventIntent>) -> bool {
    match next {
        Some(ev) => is_next_event(evs, ev),
        None => no_event(evs),
    }
}

/// When market data is due for a feed that returned this: never, if the feed is at its end. Any
/// other error is a failure.
pub open spec fn due(feed: Result<i64, BacktestError>) -> Result<i64, BacktestError> {
    match feed {
        Err(BacktestError::EndOfData) => Ok(i64::MAX),
        _ => feed,
    }
}

/// Manages the timestamps of pending events to determine the event to be processed next.
pub struct EventSet {
    assets: Vec<AssetEvents>,
}

impl View for EventSet {
    type V = Seq<AssetEvents>;

    closed spec fn view(&self) -> Seq<AssetEvents> {
        self.assets@
    }
}

impl EventSet {
    /// An event set for `num_assets` assets in which no event is pending.
    pub fn new(num_assets: usize) -> (r: Self)
        ensures
            r@ == Seq::new(num_assets as nat, |i: int| AssetEvents::idle()),
    {
        let mut assets: Vec<AssetEvents> = Vec::new();
        let mut i: usize = 0;
        while i < num_assets
            invariant
                i <= num_assets,
                assets@ == Seq::new(i as nat, |j: int| AssetEvents::idle()),
            decreases num_assets - i,
        {
            assets.push(
                AssetEvents {
                    local_data: i64::MAX,
                    local_order: i64::MAX,
                    exch_data: i64::MAX,
                    exch_order: i64::MAX,
                },
            );
            i += 1;
            assert(assets@ =~= Seq::new(i as nat, |j: int| AssetEvents::idle()));
        }
        EventSet { assets }
    }

    /// The event to be processed next: the one with the earliest timestamp, and among several with
    /// that timestamp the first by asset and kind. `None` if no event is pending.
    pub fn next(&self) -> (r: Option<EventIntent>)
        ensures
            next_event_is(self@, r),
    {
        let mut next: Option<EventIntent> = None;
        let mut timestamp: i64 = i64::MAX;
        let mut i: usize = 0;
        while i < self.assets.len()
            invariant
                i <= self.assets.len(),
                next_event_is(self.assets@.take(i as int), next),
                timestamp == match next {
                    Some(ev) => ev.timestamp,
                    None => i64::MAX,
                },
            decreases self.assets.len() - i,
        {
            let asset: AssetEvents = self.assets[i];
            let ghost head = self.assets@.take(i as int);
            let ghost longer = self.assets@.take(i as int + 1);
            if asset.local_data < timestamp {
                timestamp = asset.local_data;
                let kind: EventIntentKind = EventIntentKind::LocalData;
                next = Some(EventIntent { timestamp, asset_no: i, kind });
            }
            if asset.local_order < timestamp {
                timestamp = asset.local_order;
                let kind: EventIntentKind = EventIntentKind::LocalOrder;
                next = Some(EventIntent { timestamp, asset_no: i, kind });
            }
            if asset.exch_data < timestamp {
                timestamp = asset.exch_data;
                let kind: EventIntentKind = EventIntentKind::ExchData;
                next = Some(EventIntent { timestamp, asset_no: i, kind });
            }
            if asset.exch_order < timestamp {
                timestamp = asset.exch_order;
                let kind: EventIntentKind = EventIntentKind::ExchOrder;
                next = Some(EventIntent { timestamp, asset_no: i, kind });
            }
            proof {
                assert(forall|a: int, k: EventIntentKind| #![trigger longer[a].at(k)]
                    0 <= a < longer.len() ==> longer[a] == if a < i { head[a] } else { asset });
                assert(forall|a: int, k: EventIntentKind| #![trigger longer[a].at(k)]
                    0 <= a < i ==> longer[a].at(k) == head[a].at(k));
            }
            i += 1;
        }
        assert(self.assets@.take(i as int) =~= self.assets@);
        next
    }

    /// Sets when the local side receives its next market data.
    pub fn update_local_data(&mut self, asset_no: usize, timestamp: i64)
        requires
            asset_no < old(self)@.len(),
        ensures
            final(self)@ == old(self)@.update(
                asset_no as int,
                AssetEvents { local_data: timestamp, ..old(self)@[asset_no as int] },
            ),
    {
        let asset: AssetEvents = self.assets[asset_no];
        self.assets.set(asset_no, AssetEvents { local_data: timestamp, ..asset });
    }

    /// Sets when the local side receives its next order response.
    pub fn update_local_order(&mut self, asset_no: usize, timestamp: i64)
        requires
            asset_no < old(self)@.len(),
        ensures
            final(self)@ == old(self)@.update(
                asset_no as int,
                AssetEvents { local_order: timestamp, ..old(self)@[asset_no as int] },
            ),
    {
        let asset: AssetEvents = self.assets[asset_no];
        self.assets.set(asset_no, AssetEvents { local_order: timestamp, ..asset });
    }

    /// Sets when the exchange side processes its next market data.
    pub fn update_exch_data(&mut self, asset_no: usize, timestamp: i64)
        requires
            asset_no < old(self)@.len(),
        ensures
            final(self)@ == old(self)@.update(
                asset_no as int,
                AssetEvents { exch_data: timestamp, ..old(self)@[asset_no as int] },
            ),
    {
        let asset: AssetEvents = self.assets[asset_no];
        self.assets.set(asset_no, AssetEvents { exch_data: timestamp, ..asset });
    }

    /// Sets when the exchange side receives its next order.
    pub fn update_exch_order(&mut self, asset_no: usize, timestamp: i64)
        requires
            asset_no < old(self)@.len(),
        ensures
            final(self)@ == old(self)@.update(
                asset_no as int,
                AssetEvents { exch_order: timestamp, ..old(self)@[asset_no as int] },
            ),
    {
        let asset: AssetEvents = self.assets[asset_no];
        self.assets.set(asset_no, AssetEvents { exch_order: timestamp, ..asset });
    }

    /// Leaves the local side with no market data to come.
    pub fn invalidate_local_data(&mut self, asset_no: usize)
        requires
            asset_no < old(self)@.len(),
        ensures
            final(self)@ == old(self)@.update(
                asset_no as int,
                AssetEvents { local_data: i64::MAX, ..old(self)@[asset_no as int] },
            ),
    {
        self.update_local_data(asset_no, i64::MAX);
    }

    /// Leaves the exchange side with no market data to come.
    pub fn invalidate_exch_data(&mut self, asset_no: usize)
        requires
            asset_no < old(self)@.len(),
        ensures
            final(self)@ == old(self)@.update(
                asset_no as int,
                AssetEvents { exch_data: i64::MAX, ..old(self)@[asset_no as int] },
            ),
    {
        self.update_exch_data(asset_no, i64::MAX);
    }

    /// Notes what the local side returned for its feed: when its next market data is due, or that
    /// there is none. A failure is handed back, and changes nothing.
    pub fn note_local_data(
        &mut self,
        asset_no: usize,
        feed: Result<i64, BacktestError>,
    ) -> (r: Result<(), BacktestError>)
        requires
            asset_no < old(self)@.len(),
        ensures
            match due(feed) {
                Ok(timestamp) => r is Ok && final(self)@ == old(self)@.update(
                    asset_no as int,
                    AssetEvents { local_data: timestamp, ..old(self)@[asset_no as int] },
                ),
                Err(e) => r == Err::<(), BacktestError>(e) && final(self)@ == old(self)@,
            },
    {
        match feed {
            Ok(timestamp) => {
                self.update_local_data(asset_no, timestamp);
                Ok(())
            },
            Err(BacktestError::EndOfData) => {
                self.invalidate_local_data(asset_no);
                Ok(())
            },
            Err(e) => Err(e),
        }
    }

    /// Notes what the exchange side returned for its feed: when its next market data is due, or
    /// that there is none. A failure is handed back, and changes nothing.
    pub fn note_exch_data(
        &mut self,
        asset_no: usize,
        feed: Result<i64, BacktestError>,
    ) -> (r: Result<(), BacktestError>)
        requires
            asset_no < old(self)@.len(),
        ensures
            match due(feed) {
                Ok(timestamp) => r is Ok && final(self)@ == old(self)@.update(
                    asset_no as int,
                    AssetEvents { exch_data: timestamp, ..old(self)@[asset_no as int] },
                ),
                Err(e) => r == Err::<(), BacktestError>(e) && final(self)@ == old(self)@,
            },
    {
        match feed {
            Ok(timestamp) => {
                self.update_exch_data(asset_no, timestamp);
                Ok(())
            },
            Err(BacktestError::EndOfData) => {
                self.invalidate_exch_data(asset_no);
                Ok(())
            },
            Err(e) => Err(e),
        }
    }
}

/// At most one event is next: what `next` returns is fixed by the pending timestamps.
pub proof fn next_event_is_unique(
    evs: Seq<AssetEvents>,
    x: Option<EventIntent>,
    y: Option<EventIntent>,
)
    requires
        next_event_is(evs, x),
        next_event_is(evs, y),
    ensures
        x == y,
{
    if let Some(a) = x {
        assert(evs[a.asset_no as int].at(a.kind) == a.timestamp);
    }
    if let Some(b) = y {
        assert(evs[b.asset_no as int].at(b.kind) == b.timestamp);
    }
}

} // verus!
