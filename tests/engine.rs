use ddlog_txn::delta::DeltaMap;
use ddlog_txn::engine::HDDlog;
use ddlog_txn::error::{ConversionError, TxnError};
use ddlog_txn::handler::HandlerEvent;
use ddlog_txn::replay::ReplayCommand;
use ddlog_txn::schema::{IndexDecl, RelationDecl, Schema, UpdCmd};
use ddlog_txn::types::{Change, DDValue, Record, Update};

const INT: u64 = 1;
const PAIR: u64 = 2;
const NAME: u64 = 3;
const R: usize = 0;
const S: usize = 1;
const OUT: usize = 2;

fn schema() -> Schema {
    Schema {
        relations: vec![
            RelationDecl { name: "R".to_string(), value_type: INT, key_type: None, is_input: true },
            RelationDecl { name: "S".to_string(), value_type: PAIR, key_type: Some(NAME), is_input: true },
            RelationDecl { name: "Out".to_string(), value_type: INT, key_type: None, is_input: false },
        ],
        indexes: vec![IndexDecl { name: "R_by_val".to_string(), key_type: INT }],
    }
}

fn ival(x: u64) -> DDValue {
    DDValue { type_id: INT, payload: x }
}

fn engine(do_store: bool) -> HDDlog {
    HDDlog::run(1, do_store, schema(), &vec![]).0
}

fn commit(e: &mut HDDlog) -> Result<(), TxnError> {
    let changes = e.batch_changes();
    e.transaction_commit(&changes, &Ok(()))
}

fn commit_dump(e: &mut HDDlog) -> Result<DeltaMap, TxnError> {
    let changes = e.batch_changes();
    e.transaction_commit_dump_changes(&changes, &Ok(()))
}

#[test]
fn inserted_then_deleted_value_cancels_in_delta() {
    let mut e = engine(true);
    e.transaction_start().unwrap();
    e.apply_valupdates(&vec![
        Update::Insert { relid: R, v: ival(1) },
        Update::Insert { relid: R, v: ival(2) },
        Update::DeleteValue { relid: R, v: ival(1) },
    ])
    .unwrap();
    let delta = commit_dump(&mut e).unwrap();
    assert_eq!(delta.len(), 1);
    assert_eq!(delta.get(R, &ival(2)), 1);
    assert_eq!(delta.get(R, &ival(1)), 0);
}

#[test]
fn dump_table_without_store_is_not_materialized() {
    let mut e = engine(false);
    e.transaction_start().unwrap();
    e.apply_valupdates(&vec![Update::Insert { relid: R, v: ival(4) }]).unwrap();
    let batch_before = e.batch.clone();
    assert_eq!(e.dump_table(R), Err(TxnError::NotMaterialized));
    assert_eq!(e.batch, batch_before);
    assert!(e.in_transaction);
}

fn replay(e: &mut HDDlog, cmds: &[ReplayCommand]) -> Option<DeltaMap> {
    let mut last = None;
    for c in cmds {
        match c {
            ReplayCommand::Start => e.transaction_start().unwrap(),
            ReplayCommand::Update(u) => e.apply_valupdates(&vec![*u]).unwrap(),
            ReplayCommand::Commit(true) => last = Some(commit_dump(e).unwrap()),
            ReplayCommand::Commit(false) => commit(e).unwrap(),
            ReplayCommand::Rollback => e.transaction_rollback().unwrap(),
            _ => {}
        }
    }
    last
}

#[test]
fn transcript_holds_start_insert_commit_and_replays() {
    let mut e = engine(true);
    let mut file = Some(Vec::new());
    e.record_commands(&mut file);
    assert_eq!(file, None);
    e.transaction_start().unwrap();
    e.apply_valupdates(&vec![Update::Insert { relid: R, v: ival(5) }]).unwrap();
    commit(&mut e).unwrap();
    let t = e.replay_file.clone().unwrap();
    assert_eq!(
        t,
        vec![
            ReplayCommand::Start,
            ReplayCommand::Update(Update::Insert { relid: R, v: ival(5) }),
            ReplayCommand::Commit(false),
        ]
    );

    let mut first = engine(true);
    first.record_commands(&mut Some(Vec::new()));
    first.transaction_start().unwrap();
    first.apply_valupdates(&vec![Update::Insert { relid: R, v: ival(5) }]).unwrap();
    let d1 = commit_dump(&mut first).unwrap();
    let transcript = first.replay_file.clone().unwrap();
    let mut fresh = engine(true);
    let d2 = replay(&mut fresh, &transcript).unwrap();
    assert_eq!(d1.len(), d2.len());
    assert_eq!(d1.get(R, &ival(5)), 1);
    assert_eq!(d2.get(R, &ival(5)), 1);
}

#[test]
fn empty_commit_gives_empty_delta_and_two_notifications() {
    let mut e = engine(true);
    let n = e.update_handler.events.len();
    e.transaction_start().unwrap();
    let delta = commit_dump(&mut e).unwrap();
    assert_eq!(delta.len(), 0);
    assert_eq!(
        e.update_handler.events[n..].to_vec(),
        vec![HandlerEvent::BeforeCommit, HandlerEvent::AfterCommit(true)]
    );
}

#[test]
fn insert_then_delete_in_later_transaction_nets_zero() {
    let mut e = engine(true);
    e.transaction_start().unwrap();
    e.apply_valupdates(&vec![Update::Insert { relid: R, v: ival(7) }]).unwrap();
    let d1 = commit_dump(&mut e).unwrap();
    assert_eq!(e.dump_table(R).unwrap(), vec![(ival(7), 1)]);
    e.transaction_start().unwrap();
    e.apply_valupdates(&vec![Update::DeleteValue { relid: R, v: ival(7) }]).unwrap();
    let d2 = commit_dump(&mut e).unwrap();
    assert_eq!(d1.get(R, &ival(7)) + d2.get(R, &ival(7)), 0);
    assert_eq!(e.dump_table(R).unwrap(), vec![]);
}

#[test]
fn mistyped_value_is_refused_before_the_engine() {
    let mut e = engine(true);
    e.transaction_start().unwrap();
    e.apply_valupdates(&vec![Update::Insert { relid: R, v: ival(1) }]).unwrap();
    let r = e.apply_valupdates(&vec![
        Update::Insert { relid: R, v: ival(2) },
        Update::Insert { relid: R, v: DDValue { type_id: PAIR, payload: 3 } },
    ]);
    assert_eq!(r, Err(TxnError::TypeMismatch { relid: R, expected: INT, actual: PAIR }));
    assert_eq!(e.batch, vec![Update::Insert { relid: R, v: ival(1) }]);
}

#[test]
fn unknown_relation_id_is_refused() {
    let mut e = engine(true);
    e.transaction_start().unwrap();
    let r = e.apply_valupdates(&vec![Update::Insert { relid: 9, v: ival(2) }]);
    assert_eq!(r, Err(TxnError::UnknownRelationId(9)));
    assert!(e.batch.is_empty());
}

#[test]
fn commit_notifications_follow_update_order() {
    let mut e = engine(true);
    let n = e.update_handler.events.len();
    e.transaction_start().unwrap();
    e.apply_valupdates(&vec![
        Update::Insert { relid: R, v: ival(3) },
        Update::Insert { relid: R, v: ival(1) },
        Update::Insert { relid: R, v: ival(2) },
    ])
    .unwrap();
    commit(&mut e).unwrap();
    let ev = e.update_handler.events[n..].to_vec();
    let ch = |x| HandlerEvent::Update(Change { relid: R, value: ival(x), weight: 1 });
    assert_eq!(
        ev,
        vec![HandlerEvent::BeforeCommit, ch(3), ch(1), ch(2), HandlerEvent::AfterCommit(true)]
    );
}

#[test]
fn rollback_leaves_delta_and_store_untouched() {
    let mut e = engine(true);
    let events = e.update_handler.events.clone();
    e.transaction_start().unwrap();
    e.apply_valupdates(&vec![Update::Insert { relid: R, v: ival(8) }]).unwrap();
    e.transaction_rollback().unwrap();
    assert!(e.batch.is_empty());
    assert!(!e.in_transaction);
    assert_eq!(e.update_handler.events, events);
    assert_eq!(e.dump_table(R).unwrap(), vec![]);
    e.transaction_start().unwrap();
    assert_eq!(commit_dump(&mut e).unwrap().len(), 0);
}

#[test]
fn generic_commands_stop_at_first_bad_one() {
    let mut e = engine(true);
    e.transaction_start().unwrap();
    let cmds = vec![
        UpdCmd::Insert("R".to_string(), Record { type_id: INT, payload: 1 }),
        UpdCmd::Insert("Nope".to_string(), Record { type_id: INT, payload: 2 }),
        UpdCmd::Insert("R".to_string(), Record { type_id: INT, payload: 3 }),
    ];
    let r = e.apply_updates(&cmds);
    assert_eq!(
        r,
        Err(TxnError::InvalidCommand {
            position: 1,
            cause: ConversionError::UnknownRelation("Nope".to_string())
        })
    );
    assert_eq!(e.batch, vec![Update::Insert { relid: R, v: ival(1) }]);
}

#[test]
fn generic_commands_all_convert() {
    let mut e = engine(true);
    e.transaction_start().unwrap();
    let cmds = vec![
        UpdCmd::Insert("R".to_string(), Record { type_id: INT, payload: 1 }),
        UpdCmd::Delete("R".to_string(), Record { type_id: INT, payload: 1 }),
        UpdCmd::DeleteKey("S".to_string(), Record { type_id: NAME, payload: 4 }),
        UpdCmd::Modify(
            "S".to_string(),
            Record { type_id: NAME, payload: 4 },
            Record { type_id: PAIR, payload: 5 },
        ),
        UpdCmd::InsertOrUpdate("S".to_string(), Record { type_id: PAIR, payload: 6 }),
    ];
    assert_eq!(e.apply_updates(&cmds), Ok(()));
    let key = DDValue { type_id: NAME, payload: 4 };
    assert_eq!(
        e.batch,
        vec![
            Update::Insert { relid: R, v: ival(1) },
            Update::DeleteValue { relid: R, v: ival(1) },
            Update::DeleteKey { relid: S, k: key },
            Update::Modify { relid: S, k: key, m: Record { type_id: PAIR, payload: 5 } },
            Update::InsertOrUpdate { relid: S, v: DDValue { type_id: PAIR, payload: 6 } },
        ]
    );
}

#[test]
fn record_of_wrong_type_is_an_invalid_command() {
    let mut e = engine(true);
    e.transaction_start().unwrap();
    let cmds = vec![UpdCmd::Insert("S".to_string(), Record { type_id: INT, payload: 1 })];
    assert_eq!(
        e.apply_updates(&cmds),
        Err(TxnError::InvalidCommand {
            position: 0,
            cause: ConversionError::RecordMismatch { relid: S, expected: PAIR, actual: INT }
        })
    );
}

#[test]
fn key_command_on_keyless_relation_fails() {
    let s = schema();
    let c = UpdCmd::DeleteKey("R".to_string(), Record { type_id: INT, payload: 1 });
    assert_eq!(ddlog_txn::schema::updcmd2upd(&s, &c), Err(ConversionError::NoKey(R)));
}

#[test]
fn names_and_ids_resolve() {
    let e = engine(false);
    assert_eq!(e.get_table_id(&"S".to_string()), Ok(S));
    assert_eq!(e.get_table_id(&"T".to_string()), Err(TxnError::UnknownRelation("T".to_string())));
    assert_eq!(e.get_table_name(OUT), Ok("Out".to_string()));
    assert_eq!(e.get_table_name(3), Err(TxnError::UnknownRelationId(3)));
    assert_eq!(e.get_index_id(&"R_by_val".to_string()), Ok(0));
    assert_eq!(e.get_index_id(&"x".to_string()), Err(TxnError::UnknownIndex("x".to_string())));
    assert_eq!(e.get_index_name(0), Ok("R_by_val".to_string()));
    assert_eq!(e.get_index_name(1), Err(TxnError::UnknownIndexId(1)));
}

#[test]
fn lifecycle_errors() {
    let mut e = engine(true);
    assert_eq!(e.apply_valupdates(&vec![Update::Insert { relid: R, v: ival(1) }]), Err(TxnError::NoTransaction));
    assert_eq!(e.transaction_rollback(), Err(TxnError::NoTransaction));
    let n = e.update_handler.events.len();
    assert_eq!(commit(&mut e), Err(TxnError::NoTransaction));
    assert_eq!(
        e.update_handler.events[n..].to_vec(),
        vec![HandlerEvent::BeforeCommit, HandlerEvent::AfterCommit(false)]
    );
    e.transaction_start().unwrap();
    assert_eq!(e.transaction_start(), Err(TxnError::TransactionInProgress));
    assert!(e.transaction_commit_dump_changes(&vec![], &Ok(())).is_ok());
    assert!(matches!(e.transaction_commit_dump_changes(&vec![], &Ok(())), Err(TxnError::NoTransaction)));
}

#[test]
fn engine_failure_still_notifies_after_commit() {
    let mut e = engine(true);
    e.transaction_start().unwrap();
    let n = e.update_handler.events.len();
    let r = e.transaction_commit_dump_changes(&vec![], &Err("boom".to_string()));
    assert!(matches!(r, Err(TxnError::EngineError(ref m)) if m == "boom"));
    assert_eq!(
        e.update_handler.events[n..].to_vec(),
        vec![HandlerEvent::BeforeCommit, HandlerEvent::AfterCommit(false)]
    );
    assert!(!e.in_transaction);
}

#[test]
fn derived_changes_reach_delta_and_store() {
    let mut e = engine(true);
    e.transaction_start().unwrap();
    let changes = vec![
        Change { relid: OUT, value: ival(1), weight: 2 },
        Change { relid: OUT, value: ival(2), weight: 1 },
        Change { relid: OUT, value: ival(2), weight: -1 },
    ];
    let d = e.transaction_commit_dump_changes(&changes, &Ok(())).unwrap();
    assert_eq!(d.len(), 1);
    assert_eq!(d.get(OUT, &ival(1)), 2);
    assert_eq!(e.dump_table(OUT).unwrap(), vec![(ival(1), 2)]);
}

#[test]
fn initial_state_is_returned_and_stored() {
    let init = vec![Change { relid: R, value: ival(9), weight: 1 }];
    let (mut e, d) = HDDlog::run(0, true, schema(), &init);
    assert_eq!(e.workers, 1);
    assert_eq!(d.get(R, &ival(9)), 1);
    assert_eq!(e.dump_table(R).unwrap(), vec![(ival(9), 1)]);
    assert!(e.update_handler.delta.is_none());
}

#[test]
fn input_snapshot_expands_weights() {
    let contents = vec![
        vec![(ival(1), 2), (ival(2), -1), (ival(3), 0)],
        vec![(DDValue { type_id: PAIR, payload: 6 }, 1)],
        vec![(ival(3), 1)],
    ];
    let ins = ReplayCommand::Update(Update::Insert { relid: R, v: ival(1) });
    let del = ReplayCommand::Update(Update::DeleteValue { relid: R, v: ival(2) });
    let s_ins = ReplayCommand::Update(Update::Insert { relid: S, v: DDValue { type_id: PAIR, payload: 6 } });
    let expected = vec![ins, ins, del, s_ins];
    assert_eq!(engine(true).dump_input_snapshot(&contents), expected);
    assert_eq!(engine(false).dump_input_snapshot(&contents), expected);
}

#[test]
fn dump_table_keeps_store_order_and_stops_on_false() {
    let init = vec![
        Change { relid: R, value: ival(5), weight: 1 },
        Change { relid: R, value: ival(3), weight: 2 },
        Change { relid: R, value: ival(9), weight: 1 },
    ];
    let (mut e, _) = HDDlog::run(1, true, schema(), &init);
    assert_eq!(e.dump_table(R).unwrap(), vec![(ival(5), 1), (ival(3), 2), (ival(9), 1)]);
    assert_eq!(e.dump_table_with(R, |v: &DDValue, _w: i64| v.payload != 3), Ok(2));
    assert_eq!(e.dump_table_with(R, |_v: &DDValue, _w: i64| true), Ok(3));
    assert_eq!(e.dump_table_with(OUT, |_v: &DDValue, _w: i64| false), Ok(0));
    assert_eq!(engine(false).dump_table_with(R, |_v: &DDValue, _w: i64| true), Err(TxnError::NotMaterialized));
}

#[test]
fn index_requests_are_checked_and_recorded() {
    let mut e = engine(true);
    e.record_commands(&mut Some(Vec::new()));
    assert_eq!(e.dump_index(0), Ok(0));
    assert_eq!(e.dump_index(5), Err(TxnError::UnknownIndexId(5)));
    assert_eq!(e.query_index(0, ival(1)), Ok(0));
    assert_eq!(e.query_index_rec(0, &Record { type_id: INT, payload: 4 }), Ok(ival(4)));
    assert_eq!(
        e.query_index_rec(0, &Record { type_id: NAME, payload: 4 }),
        Err(TxnError::InvalidCommand {
            position: 0,
            cause: ConversionError::KeyMismatch { idxid: 0, expected: INT, actual: NAME }
        })
    );
    assert_eq!(e.query_index_rec(2, &Record { type_id: INT, payload: 4 }), Err(TxnError::UnknownIndexId(2)));
    assert_eq!(
        e.replay_file.clone().unwrap(),
        vec![
            ReplayCommand::DumpIndex(0),
            ReplayCommand::DumpIndex(5),
            ReplayCommand::QueryIndex(0, ival(1)),
            ReplayCommand::QueryIndex(0, ival(4)),
        ]
    );
}

#[test]
fn clear_profiling_and_stop() {
    let mut e = engine(true);
    e.record_commands(&mut Some(Vec::new()));
    assert_eq!(e.clear_relation(R), Err(TxnError::NoTransaction));
    e.transaction_start().unwrap();
    assert_eq!(e.clear_relation(7), Err(TxnError::UnknownRelationId(7)));
    assert_eq!(e.clear_relation(R), Ok(()));
    e.enable_cpu_profiling(true);
    e.enable_timely_profiling(true);
    e.enable_timely_profiling(true);
    e.profile();
    assert!(e.cpu_profiling && e.timely_profiling);
    assert_eq!(e.stop(), Ok(()));
    assert!(!e.in_transaction);
    assert_eq!(
        e.replay_file.clone().unwrap(),
        vec![
            ReplayCommand::Clear(R),
            ReplayCommand::Start,
            ReplayCommand::Clear(7),
            ReplayCommand::Clear(R),
            ReplayCommand::CpuProfiling(true),
            ReplayCommand::TimelyProfiling(true),
            ReplayCommand::TimelyProfiling(true),
            ReplayCommand::Profile,
        ]
    );
}
