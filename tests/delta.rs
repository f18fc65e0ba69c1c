use ddlog_txn::delta::DeltaMap;
use ddlog_txn::handler::{HandlerEvent, UpdateHandlers};
use ddlog_txn::types::{Change, DDValue};

fn v(x: u64) -> DDValue {
    DDValue { type_id: 1, payload: x }
}

#[test]
fn delta_map_accumulates_and_prunes() {
    let mut d = DeltaMap::new();
    d.update(0, &v(1), 1);
    d.update(0, &v(1), 1);
    d.update(1, &v(1), -3);
    assert_eq!(d.get(0, &v(1)), 2);
    assert_eq!(d.get(1, &v(1)), -3);
    assert_eq!(d.len(), 2);
    d.update(0, &v(1), -2);
    assert_eq!(d.get(0, &v(1)), 0);
    assert_eq!(d.len(), 1);
    d.update(0, &v(2), 0);
    assert_eq!(d.len(), 1);
    assert_eq!(d.get_rel(1), vec![(v(1), -3)]);
    assert_eq!(d.get_rel(0), vec![]);
}

#[test]
fn overflowing_weight_is_a_handler_failure() {
    let mut h = UpdateHandlers::new(true);
    let big = Change { relid: 0, value: v(1), weight: i64::MAX };
    h.update(&big);
    h.update(&Change { relid: 0, value: v(1), weight: 1 });
    assert_eq!(h.failures, 2);
    assert_eq!(h.delta.as_ref().unwrap().get(0, &v(1)), i64::MAX);
    assert_eq!(h.store.as_ref().unwrap().get(0, &v(1)), i64::MAX);
    assert_eq!(h.events.len(), 2);
}

#[test]
fn chain_without_store_feeds_delta_and_callback() {
    let mut h = UpdateHandlers::new(false);
    h.before_commit();
    h.update_all(&vec![Change { relid: 2, value: v(4), weight: 1 }]);
    h.after_commit(true);
    assert!(h.store.is_none());
    assert_eq!(h.delta.as_ref().unwrap().get(2, &v(4)), 1);
    assert_eq!(
        h.events,
        vec![
            HandlerEvent::BeforeCommit,
            HandlerEvent::Update(Change { relid: 2, value: v(4), weight: 1 }),
            HandlerEvent::AfterCommit(true),
        ]
    );
}
