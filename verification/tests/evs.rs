use hftbacktest::evs::{EventIntent, EventIntentKind, EventSet};
use hftbacktest::types::BacktestError;

#[test]
fn no_event_is_pending_at_first() {
    assert_eq!(EventSet::new(0).next(), None);
    assert_eq!(EventSet::new(3).next(), None);
}

#[test]
fn the_earliest_event_is_next() {
    let mut evs = EventSet::new(2);
    evs.update_local_data(0, 30);
    evs.update_exch_data(1, 20);
    evs.update_local_order(1, 25);
    assert_eq!(
        evs.next(),
        Some(EventIntent { timestamp: 20, asset_no: 1, kind: EventIntentKind::ExchData })
    );
    evs.update_exch_order(0, -5);
    assert_eq!(
        evs.next(),
        Some(EventIntent { timestamp: -5, asset_no: 0, kind: EventIntentKind::ExchOrder })
    );
}

#[test]
fn ties_go_by_asset_and_then_by_kind() {
    let mut evs = EventSet::new(2);
    evs.update_local_data(1, 7);
    evs.update_exch_order(0, 7);
    assert_eq!(
        evs.next(),
        Some(EventIntent { timestamp: 7, asset_no: 0, kind: EventIntentKind::ExchOrder })
    );
    evs.update_exch_data(0, 7);
    assert_eq!(evs.next().unwrap().kind, EventIntentKind::ExchData);
    evs.update_local_order(0, 7);
    assert_eq!(evs.next().unwrap().kind, EventIntentKind::LocalOrder);
    evs.update_local_data(0, 7);
    assert_eq!(evs.next().unwrap().kind, EventIntentKind::LocalData);
}

#[test]
fn invalidated_data_is_not_pending() {
    let mut evs = EventSet::new(1);
    evs.update_local_data(0, 1);
    evs.update_exch_data(0, 2);
    evs.invalidate_local_data(0);
    assert_eq!(evs.next().unwrap().kind, EventIntentKind::ExchData);
    evs.invalidate_exch_data(0);
    assert_eq!(evs.next(), None);
}

#[test]
fn feeds_are_noted() {
    let mut evs = EventSet::new(2);
    assert_eq!(evs.note_local_data(1, Ok(30)), Ok(()));
    assert_eq!(evs.note_exch_data(0, Ok(20)), Ok(()));
    assert_eq!(
        evs.next(),
        Some(EventIntent { timestamp: 20, asset_no: 0, kind: EventIntentKind::ExchData })
    );
    assert_eq!(evs.note_exch_data(0, Err(BacktestError::EndOfData)), Ok(()));
    assert_eq!(
        evs.next(),
        Some(EventIntent { timestamp: 30, asset_no: 1, kind: EventIntentKind::LocalData })
    );
    assert_eq!(evs.note_local_data(1, Err(BacktestError::EndOfData)), Ok(()));
    assert_eq!(evs.next(), None);
}

#[test]
fn a_failed_feed_is_handed_back() {
    let mut evs = EventSet::new(1);
    evs.update_local_data(0, 5);
    evs.update_exch_data(0, 6);
    let failure = || BacktestError::DataError("unreadable".to_string());
    assert_eq!(evs.note_local_data(0, Err(failure())), Err(failure()));
    assert_eq!(evs.note_exch_data(0, Err(failure())), Err(failure()));
    assert_eq!(evs.next().unwrap().timestamp, 5);
    evs.invalidate_local_data(0);
    assert_eq!(evs.next().unwrap().timestamp, 6);
}
