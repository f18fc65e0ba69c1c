use vstd::prelude::*;

use crate::delta::{no_zero_weights, DeltaMap, FactKey};
use crate::error::{ConversionError, TxnError};
use crate::handler::{
    apply_changes, opt_apply, opt_view, update_events, HandlerEvent, UpdateHandlers,
};
use crate::replay::{
    record, record_updates, recorded, transcript_view, update_commands, ReplayCommand,
};
use crate::schema::{
    spec_convert_all, spec_validate_all, updcmd2upd, RelationDecl,
    Schema, UpdCmd,
};
use crate::types::{Change, DDValue, IdxId, Record, RelId, Update};

verus! {

/// The outcome of `apply_valupdates` on a batch.
pub open spec fn spec_apply_valupdates(in_transaction: bool, rels: Seq<RelationDecl>, us: Seq<Update>) -> Result<(), TxnError> {
    if !in_transaction {
        Err(TxnError::NoTransaction)
    } else {
        spec_validate_all(rels, us)
    }
}

/// The notifications that one commit delivers to the user callback.
pub open spec fn commit_events(cs: Seq<Change>, success: bool) -> Seq<HandlerEvent> {
    seq![HandlerEvent::BeforeCommit] + update_events(cs) + seq![HandlerEvent::AfterCommit(success)]
}

/// The changes with which an input multiset relation answers a batch: one
/// `+1` per inserted value and one `-1` per deleted value, in batch order.
pub open spec fn input_changes(us: Seq<Update>) -> Seq<Change>
    decreases us.len(),
{
    if us.len() == 0 {
        Seq::empty()
    } else {
        let prev = input_changes(us.drop_last());
        match us.last() {
            Update::Insert { relid, v } => prev.push(Change { relid, value: v, weight: 1i64 }),
            Update::DeleteValue { relid, v } => prev.push(Change { relid, value: v, weight: -1i64 }),
            _ => prev,
        }
    }
}

/// `n` copies of `c`.
pub open spec fn repeat_cmd(c: ReplayCommand, n: nat) -> Seq<ReplayCommand> {
    Seq::new(n, |_i: int| c)
}

/// The commands that rebuild one fact: one insert per unit of a positive
/// weight, one delete per unit of a negative one.
pub open spec fn fact_commands(relid: RelId, v: DDValue, w: i64) -> Seq<ReplayCommand> {
    if w >= 0 {
        repeat_cmd(ReplayCommand::Update(Update::Insert { relid, v }), w as nat)
    } else {
        repeat_cmd(ReplayCommand::Update(Update::DeleteValue { relid, v }), (-w) as nat)
    }
}

/// The commands that rebuild the facts `es` of relation `relid`, in order.
pub open spec fn facts_commands(relid: RelId, es: Seq<(DDValue, i64)>) -> Seq<ReplayCommand>
    decreases es.len(),
{
    if es.len() == 0 {
        Seq::empty()
    } else {
        facts_commands(relid, es.drop_last()) + fact_commands(relid, es.last().0, es.last().1)
    }
}

/// The commands that rebuild the input relations among the first `n` of
/// `rels`, relation by relation, where `contents[r]` lists the facts of
/// relation `r` with their weights (weight one for a set).
pub open spec fn snapshot_commands(rels: Seq<RelationDecl>, contents: Seq<Vec<(DDValue, i64)>>, n: int) -> Seq<ReplayCommand>
    decreases n,
{
    if n <= 0 {
        Seq::empty()
    } else {
        let prev = snapshot_commands(rels, contents, n - 1);
        if rels[n - 1].is_input {
            prev + facts_commands((n - 1) as RelId, contents[n - 1]@)
        } else {
            prev
        }
    }
}

/// Appends `n` copies of `c`.
fn push_copies(out: &mut Vec<ReplayCommand>, c: ReplayCommand, n: u64)
    ensures
        final(out)@ == old(out)@ + repeat_cmd(c, n as nat),
{
    let mut i: u64 = 0;
    while i < n
        invariant
            i <= n,
            out@ == old(out)@ + repeat_cmd(c, i as nat),
        decreases n - i,
    {
        out.push(c);
        i = i + 1;
        proof {
            assert(old(out)@ + repeat_cmd(c, i as nat) =~= old(out)@ + repeat_cmd(c, (i - 1) as nat) + seq![c]);
        }
    }
}

/// Handle of a running engine: the schema, the handler chain with its delta
/// tracker and snapshot store, the open transaction's batch, and the
/// replay transcript where one is attached.
pub struct HDDlog {
    pub schema: Schema,
    pub update_handler: UpdateHandlers,
    /// Updates forwarded to the engine since `transaction_start`.
    pub batch: Vec<Update>,
    pub in_transaction: bool,
    /// When set, every lifecycle call is appended here so that it can be
    /// replayed later.
    pub replay_file: Option<Vec<ReplayCommand>>,
    pub cpu_profiling: bool,
    pub timely_profiling: bool,
    pub workers: usize,
}

impl HDDlog {
    pub open spec fn wf(&self) -> bool {
        self.update_handler.wf()
    }

    pub open spec fn rels(&self) -> Seq<RelationDecl> {
        self.schema.relations@
    }

    pub open spec fn delta_view(&self) -> Option<Map<FactKey, int>> {
        opt_view(self.update_handler.delta)
    }

    pub open spec fn store_view(&self) -> Option<Map<FactKey, int>> {
        opt_view(self.update_handler.store)
    }

    /// The snapshot store, where there is one, holds no zero weight.
    pub open spec fn store_has_no_zero_weights(&self) -> bool {
        match self.store_view() {
            Some(m) => no_zero_weights(m),
            None => true,
        }
    }

    pub open spec fn transcript(&self) -> Option<Seq<ReplayCommand>> {
        transcript_view(self.replay_file)
    }

    pub proof fn lemma_store_no_zero(&self)
        requires
            self.wf(),
        ensures
            self.store_has_no_zero_weights(),
    {
        match self.update_handler.store {
            Some(d) => d.lemma_no_zero_weights(),
            None => {},
        }
    }

    /// Builds the engine around a schema.  `init_changes` are the facts that
    /// the engine's initial transaction produced; they are returned as the
    /// initial state, and go into the snapshot store where `do_store` is set.
    pub fn run(workers: usize, do_store: bool, schema: Schema, init_changes: &Vec<Change>) -> (r: (HDDlog, DeltaMap))
        ensures
            r.0.wf(),
            r.1.wf(),
            r.1@ == apply_changes(Map::empty(), init_changes@),
            no_zero_weights(r.1@),
            r.0.store_has_no_zero_weights(),
            r.0.workers == if workers == 0 { 1 } else { workers },
            r.0.schema == schema,
            r.0.delta_view() is None,
            r.0.store_view() == if do_store {
                Some(apply_changes(Map::empty(), init_changes@))
            } else {
                None
            },
            r.0.update_handler.events@ == commit_events(init_changes@, true),
            !r.0.in_transaction,
            r.0.batch@.len() == 0,
            r.0.replay_file is None,
            !r.0.cpu_profiling,
            !r.0.timely_profiling,
    {
        let workers = if workers == 0 {
            1
        } else {
            workers
        };
        let mut handler = UpdateHandlers::new(do_store);
        handler.before_commit();
        handler.update_all(init_changes);
        handler.after_commit(true);
        let init_state = match handler.delta.take() {
            Some(d) => d,
            None => DeltaMap::new(),
        };
        proof {
            init_state.lemma_no_zero_weights();
        }
        proof {
            assert(handler.events@ =~= commit_events(init_changes@, true));
        }
        let engine = HDDlog {
            schema,
            update_handler: handler,
            batch: Vec::new(),
            in_transaction: false,
            replay_file: None,
            cpu_profiling: false,
            timely_profiling: false,
            workers,
        };
        proof {
            engine.lemma_store_no_zero();
        }
        (engine, init_state)
    }

    pub fn get_table_id(&self, tname: &String) -> (r: Result<RelId, TxnError>)
        ensures
            r == self.schema.spec_get_table_id(tname),
    {
        self.schema.get_table_id(tname)
    }

    pub fn get_table_name(&self, tid: RelId) -> (r: Result<String, TxnError>)
        ensures
            tid < self.rels().len() ==> r is Ok && r->Ok_0@ == self.rels()[tid as int].name@,
            tid >= self.rels().len() ==> r == Err::<String, TxnError>(TxnError::UnknownRelationId(tid)),
    {
        self.schema.get_table_name(tid)
    }

    pub fn get_index_id(&self, iname: &String) -> (r: Result<IdxId, TxnError>)
        ensures
            r == self.schema.spec_get_index_id(iname),
    {
        self.schema.get_index_id(iname)
    }

    pub fn get_index_name(&self, iid: IdxId) -> (r: Result<String, TxnError>)
        ensures
            iid < self.schema.indexes@.len() ==> r is Ok && r->Ok_0@ == self.schema.indexes@[iid as int].name@,
            iid >= self.schema.indexes@.len() ==> r == Err::<String, TxnError>(TxnError::UnknownIndexId(iid)),
    {
        self.schema.get_index_name(iid)
    }

    /// Attaches the transcript in `file` and hands back the one attached before.
    pub fn record_commands(&mut self, file: &mut Option<Vec<ReplayCommand>>)
        ensures
            final(self).replay_file == *old(file),
            *final(file) == old(self).replay_file,
            final(self).schema == old(self).schema,
            final(self).update_handler == old(self).update_handler,
            final(self).batch == old(self).batch,
            final(self).in_transaction == old(self).in_transaction,
    {
        std::mem::swap(&mut self.replay_file, file);
    }
    pub fn transaction_start(&mut self) -> (r: Result<(), TxnError>)
        ensures
            final(self).transcript() == recorded(old(self).transcript(), seq![ReplayCommand::Start]),
            final(self).schema == old(self).schema,
            final(self).update_handler == old(self).update_handler,
            old(self).in_transaction ==> r == Err::<(), TxnError>(TxnError::TransactionInProgress)
                && final(self).batch == old(self).batch && final(self).in_transaction,
            !old(self).in_transaction ==> r is Ok && final(self).in_transaction && final(self).batch@.len() == 0,
    {
        record(&mut self.replay_file, ReplayCommand::Start);
        if self.in_transaction {
            return Err(TxnError::TransactionInProgress);
        }
        self.in_transaction = true;
        self.batch = Vec::new();
        Ok(())
    }

    /// Checks every update against the schema and forwards the batch to the
    /// engine only where all pass.  Each update is appended to the
    /// transcript first.
    pub fn apply_valupdates(&mut self, updates: &Vec<Update>) -> (r: Result<(), TxnError>)
        ensures
            final(self).transcript() == recorded(old(self).transcript(), update_commands(updates@)),
            r == spec_apply_valupdates(old(self).in_transaction, old(self).rels(), updates@),
            r is Ok ==> final(self).batch@ == old(self).batch@ + updates@,
            r is Err ==> final(self).batch@ == old(self).batch@,
            final(self).schema == old(self).schema,
            final(self).update_handler == old(self).update_handler,
            final(self).in_transaction == old(self).in_transaction,
    {
        record_updates(&mut self.replay_file, updates);
        if !self.in_transaction {
            return Err(TxnError::NoTransaction);
        }
        let ghost recorded_file = self.replay_file;
        let mut i: usize = 0;
        while i < updates.len()
            invariant
                i <= updates@.len(),
                self.schema == old(self).schema,
                self.update_handler == old(self).update_handler,
                self.in_transaction == old(self).in_transaction,
                self.batch == old(self).batch,
                self.replay_file == recorded_file,
                self.in_transaction,
                transcript_view(recorded_file) == recorded(old(self).transcript(), update_commands(updates@)),
                spec_validate_all(self.rels(), updates@.take(i as int)) is Ok,
            decreases updates@.len() - i,
        {
            let res = self.schema.validate_update(&updates[i]);
            proof {
                assert(updates@.take(i + 1).drop_last() =~= updates@.take(i as int));
                assert(updates@.take(i + 1).last() == updates@[i as int]);
            }
            if res.is_err() {
                proof {
                    lemma_validate_prefix(self.rels(), updates@, i as int + 1);
                }
                return res;
            }
            i = i + 1;
        }
        proof {
            assert(updates@.take(i as int) =~= updates@);
        }
        let mut j: usize = 0;
        let ghost before = self.batch@;
        while j < updates.len()
            invariant
                j <= updates@.len(),
                self.schema == old(self).schema,
                self.update_handler == old(self).update_handler,
                self.in_transaction == old(self).in_transaction,
                self.replay_file == recorded_file,
                self.batch@ == before + updates@.take(j as int),
            decreases updates@.len() - j,
        {
            self.batch.push(updates[j]);
            proof {
                assert(updates@.take(j + 1) =~= updates@.take(j as int).push(updates@[j as int]));
            }
            j = j + 1;
        }
        proof {
            assert(updates@.take(j as int) =~= updates@);
        }
        Ok(())
    }

    /// Converts generic commands up to the first that does not convert and
    /// applies those converted before it; the rest of the input is still
    /// walked.  Reports the bad command's position and error, if any.
    pub fn apply_updates(&mut self, upds: &Vec<UpdCmd>) -> (r: Result<(), TxnError>)
        ensures
            ({
                let (us, bad) = spec_convert_all(old(self).rels(), upds@);
                &&& final(self).transcript() == recorded(old(self).transcript(), update_commands(us))
                &&& spec_apply_valupdates(old(self).in_transaction, old(self).rels(), us) is Ok
                    ==> final(self).batch@ == old(self).batch@ + us
                &&& spec_apply_valupdates(old(self).in_transaction, old(self).rels(), us) is Err
                    ==> final(self).batch@ == old(self).batch@
                &&& r == match bad {
                    Some((k, e)) => Err(TxnError::InvalidCommand { position: k as usize, cause: e }),
                    None => spec_apply_valupdates(old(self).in_transaction, old(self).rels(), us),
                }
            }),
            final(self).schema == old(self).schema,
            final(self).update_handler == old(self).update_handler,
            final(self).in_transaction == old(self).in_transaction,
    {
        let mut converted: Vec<Update> = Vec::new();
        let mut bad: Option<(usize, ConversionError)> = None;
        let mut i: usize = 0;
        while i < upds.len()
            invariant
                i <= upds@.len(),
                self == old(self),
                ({
                    let (us, b) = spec_convert_all(self.rels(), upds@.take(i as int));
                    &&& converted@ == us
                    &&& match bad {
                        Some((k, e)) => b == Some((k as int, e)),
                        None => b is None,
                    }
                }),
            decreases upds@.len() - i,
        {
            proof {
                assert(upds@.take(i + 1).drop_last() =~= upds@.take(i as int));
            }
            if bad.is_none() {
                match updcmd2upd(&self.schema, &upds[i]) {
                    Ok(u) => {
                        converted.push(u);
                    },
                    Err(e) => {
                        bad = Some((i, e));
                    },
                }
            }
            i = i + 1;
        }
        proof {
            assert(upds@.take(i as int) =~= upds@);
        }
        let res = self.apply_valupdates(&converted);
        match bad {
            Some((k, e)) => Err(TxnError::InvalidCommand { position: k, cause: e }),
            None => res,
        }
    }

    /// Delivers a commit's notifications: `before_commit`, then the changes
    /// the engine reported, in order, then `after_commit`.  With no
    /// transaction open the engine commits nothing and the commit fails.
    fn deliver_commit(&mut self, changes: &Vec<Change>, engine_result: &Result<(), String>) -> (r: Result<(), TxnError>)
        requires
            old(self).wf(),
        ensures
            final(self).wf(),
            final(self).schema == old(self).schema,
            final(self).replay_file == old(self).replay_file,
            !final(self).in_transaction,
            final(self).batch@.len() == 0,
            old(self).in_transaction ==> {
                &&& final(self).delta_view() == opt_apply(old(self).delta_view(), changes@)
                &&& final(self).store_view() == opt_apply(old(self).store_view(), changes@)
                &&& final(self).update_handler.events@ == old(self).update_handler.events@
                    + commit_events(changes@, engine_result is Ok)
                &&& r == match engine_result {
                    Ok(()) => Ok::<(), TxnError>(()),
                    Err(e) => Err(TxnError::EngineError(*e)),
                }
            },
            !old(self).in_transaction ==> {
                &&& final(self).delta_view() == old(self).delta_view()
                &&& final(self).store_view() == old(self).store_view()
                &&& final(self).update_handler.events@ == old(self).update_handler.events@
                    + commit_events(Seq::empty(), false)
                &&& r == Err::<(), TxnError>(TxnError::NoTransaction)
            },
    {
        self.update_handler.before_commit();
        if !self.in_transaction {
            self.update_handler.after_commit(false);
            self.batch = Vec::new();
            proof {
                assert(update_events(Seq::<Change>::empty()) =~= Seq::<HandlerEvent>::empty());
                assert(self.update_handler.events@ =~= old(self).update_handler.events@
                    + commit_events(Seq::empty(), false));
            }
            return Err(TxnError::NoTransaction);
        }
        self.update_handler.update_all(changes);
        let ok = engine_result.is_ok();
        self.update_handler.after_commit(ok);
        self.in_transaction = false;
        self.batch = Vec::new();
        proof {
            assert(self.update_handler.events@ =~= old(self).update_handler.events@
                + commit_events(changes@, engine_result is Ok));
        }
        match engine_result {
            Ok(()) => Ok(()),
            Err(e) => Err(TxnError::EngineError(e.clone())),
        }
    }

    /// Commits the open transaction.  `changes` are the facts that the
    /// engine reported as changed and `engine_result` its verdict.
    pub fn transaction_commit(&mut self, changes: &Vec<Change>, engine_result: &Result<(), String>) -> (r: Result<(), TxnError>)
        requires
            old(self).wf(),
        ensures
            final(self).wf(),
            final(self).transcript() == recorded(old(self).transcript(), seq![ReplayCommand::Commit(false)]),
            final(self).store_has_no_zero_weights(),
            final(self).schema == old(self).schema,
            !final(self).in_transaction,
            final(self).batch@.len() == 0,
            old(self).in_transaction ==> {
                &&& final(self).delta_view() == opt_apply(old(self).delta_view(), changes@)
                &&& final(self).store_view() == opt_apply(old(self).store_view(), changes@)
                &&& final(self).update_handler.events@ == old(self).update_handler.events@
                    + commit_events(changes@, engine_result is Ok)
                &&& r == match engine_result {
                    Ok(()) => Ok::<(), TxnError>(()),
                    Err(e) => Err(TxnError::EngineError(*e)),
                }
            },
            !old(self).in_transaction ==> {
                &&& final(self).delta_view() == old(self).delta_view()
                &&& final(self).store_view() == old(self).store_view()
                &&& final(self).update_handler.events@ == old(self).update_handler.events@
                    + commit_events(Seq::empty(), false)
                &&& r == Err::<(), TxnError>(TxnError::NoTransaction)
            },
    {
        record(&mut self.replay_file, ReplayCommand::Commit(false));
        let r = self.deliver_commit(changes, engine_result);
        proof {
            self.lemma_store_no_zero();
        }
        r
    }

    /// Commits the open transaction and returns the changes it made: the
    /// delta tracker is reset just before the commit, and its map is handed
    /// to the caller where the commit succeeds.
    pub fn transaction_commit_dump_changes(&mut self, changes: &Vec<Change>, engine_result: &Result<(), String>) -> (r: Result<DeltaMap, TxnError>)
        requires
            old(self).wf(),
        ensures
            final(self).wf(),
            final(self).transcript() == recorded(old(self).transcript(), seq![ReplayCommand::Commit(true)]),
            final(self).store_has_no_zero_weights(),
            final(self).schema == old(self).schema,
            !final(self).in_transaction,
            final(self).batch@.len() == 0,
            old(self).in_transaction && engine_result is Ok ==> {
                &&& r is Ok
                &&& r->Ok_0.wf()
                &&& r->Ok_0@ == apply_changes(Map::empty(), changes@)
                &&& no_zero_weights(r->Ok_0@)
                &&& final(self).delta_view() is None
            },
            old(self).in_transaction && engine_result is Err ==> r == Err::<DeltaMap, TxnError>(
                TxnError::EngineError(engine_result->Err_0),
            ),
            !old(self).in_transaction ==> r == Err::<DeltaMap, TxnError>(TxnError::NoTransaction),
            old(self).in_transaction ==> {
                &&& final(self).store_view() == opt_apply(old(self).store_view(), changes@)
                &&& final(self).update_handler.events@ == old(self).update_handler.events@
                    + commit_events(changes@, engine_result is Ok)
            },
            !old(self).in_transaction ==> {
                &&& final(self).store_view() == old(self).store_view()
                &&& final(self).update_handler.events@ == old(self).update_handler.events@
                    + commit_events(Seq::empty(), false)
            },
    {
        record(&mut self.replay_file, ReplayCommand::Commit(true));
        self.update_handler.delta = Some(DeltaMap::new());
        let res = self.deliver_commit(changes, engine_result);
        proof {
            self.lemma_store_no_zero();
        }
        match res {
            Ok(()) => {
                match self.update_handler.delta.take() {
                    Some(d) => {
                        proof {
                            d.lemma_no_zero_weights();
                        }
                        Ok(d)
                    },
                    None => Ok(DeltaMap::new()),
                }
            },
            Err(e) => Err(e),
        }
    }

    /// Discards the updates applied since `transaction_start`; the handler
    /// chain is not notified.
    pub fn transaction_rollback(&mut self) -> (r: Result<(), TxnError>)
        ensures
            final(self).transcript() == recorded(old(self).transcript(), seq![ReplayCommand::Rollback]),
            final(self).schema == old(self).schema,
            final(self).update_handler == old(self).update_handler,
            !final(self).in_transaction,
            old(self).in_transaction ==> r is Ok && final(self).batch@.len() == 0,
            !old(self).in_transaction ==> r == Err::<(), TxnError>(TxnError::NoTransaction)
                && final(self).batch == old(self).batch,
    {
        record(&mut self.replay_file, ReplayCommand::Rollback);
        if !self.in_transaction {
            return Err(TxnError::NoTransaction);
        }
        self.in_transaction = false;
        self.batch = Vec::new();
        Ok(())
    }

    /// The materialized content of relation `table`, in store order.
    pub fn dump_table(&mut self, table: RelId) -> (r: Result<Vec<(DDValue, i64)>, TxnError>)
        requires
            old(self).wf(),
        ensures
            final(self).transcript() == recorded(old(self).transcript(), seq![ReplayCommand::Dump(table)]),
            final(self).schema == old(self).schema,
            final(self).update_handler == old(self).update_handler,
            final(self).batch == old(self).batch,
            final(self).in_transaction == old(self).in_transaction,
            old(self).store_view() is None ==> r == Err::<Vec<(DDValue, i64)>, TxnError>(TxnError::NotMaterialized),
            old(self).store_view() is Some ==> r is Ok && {
                let m = old(self).store_view()->Some_0;
                let out = r->Ok_0@;
                &&& forall|i: int|
                    0 <= i < out.len() ==> #[trigger] m.contains_key((table, out[i].0)) && m[(table, out[i].0)]
                        == out[i].1 as int
                &&& forall|i: int, j: int| 0 <= i < j < out.len() ==> out[i].0 != out[j].0
                &&& forall|v: DDValue| #[trigger]
                    m.contains_key((table, v)) ==> exists|i: int| 0 <= i < out.len() && out[i].0 == v
                &&& out == old(self).update_handler.store->Some_0.rel_entries(table)
            },
    {
        record(&mut self.replay_file, ReplayCommand::Dump(table));
        match &self.update_handler.store {
            Some(db) => Ok(db.get_rel(table)),
            None => Err(TxnError::NotMaterialized),
        }
    }

    /// The commands that rebuild the current content of every input
    /// relation, in relation order.  `contents[r]` is what the engine holds
    /// for relation `r`, in its iteration order.
    pub fn dump_input_snapshot(&self, contents: &Vec<Vec<(DDValue, i64)>>) -> (r: Vec<ReplayCommand>)
        requires
            contents@.len() >= self.rels().len(),
        ensures
            r@ == snapshot_commands(self.rels(), contents@, self.rels().len() as int),
    {
        let mut out: Vec<ReplayCommand> = Vec::new();
        let mut rel: usize = 0;
        while rel < self.schema.relations.len()
            invariant
                contents@.len() >= self.rels().len(),
                rel <= self.rels().len(),
                out@ == snapshot_commands(self.rels(), contents@, rel as int),
            decreases self.rels().len() - rel,
        {
            if self.schema.relations[rel].is_input {
                let facts = &contents[rel];
                let ghost start = out@;
                let mut i: usize = 0;
                while i < facts.len()
                    invariant
                        i <= facts@.len(),
                        out@ == start + facts_commands(rel, facts@.take(i as int)),
                    decreases facts@.len() - i,
                {
                    let (v, w) = facts[i];
                    let ghost before = out@;
                    if w >= 0 {
                        push_copies(&mut out, ReplayCommand::Update(Update::Insert { relid: rel, v }), w as u64);
                    } else {
                        let n: u64 = (0i128 - w as i128) as u64;
                        push_copies(&mut out, ReplayCommand::Update(Update::DeleteValue { relid: rel, v }), n);
                    }
                    proof {
                        assert(facts@.take(i + 1).drop_last() =~= facts@.take(i as int));
                        assert(facts@.take(i + 1).last() == facts@[i as int]);
                        assert(out@ =~= start + facts_commands(rel, facts@.take(i + 1)));
                    }
                    i = i + 1;
                }
                proof {
                    assert(facts@.take(i as int) =~= facts@);
                }
            }
            rel = rel + 1;
        }
        out
    }

    /// Hands the materialized facts of relation `table` to `cb`, in store
    /// order, stopping after the first call that returns `false`.  Returns
    /// how many facts were handed over.
    #[verifier::loop_isolation(false)]
    pub fn dump_table_with<F: Fn(&DDValue, i64) -> bool>(&mut self, table: RelId, cb: F) -> (r: Result<usize, TxnError>)
        requires
            old(self).wf(),
            forall|v: &DDValue, w: i64| cb.requires((v, w)),
        ensures
            final(self).transcript() == recorded(old(self).transcript(), seq![ReplayCommand::Dump(table)]),
            final(self).schema == old(self).schema,
            final(self).update_handler == old(self).update_handler,
            final(self).batch == old(self).batch,
            final(self).in_transaction == old(self).in_transaction,
            old(self).store_view() is None ==> r == Err::<usize, TxnError>(TxnError::NotMaterialized),
            old(self).store_view() is Some ==> r is Ok && {
                let out = old(self).update_handler.store->Some_0.rel_entries(table);
                let n = r->Ok_0 as int;
                &&& n <= out.len()
                &&& forall|i: int| 0 <= i < n - 1 ==> cb.ensures((&out[i].0, out[i].1), true)
                &&& n < out.len() ==> n > 0 && cb.ensures((&out[n - 1].0, out[n - 1].1), false)
            },
    {
        let facts = self.dump_table(table)?;
        let mut i: usize = 0;
        while i < facts.len()
            invariant
                i <= facts@.len(),
                forall|v: &DDValue, w: i64| cb.requires((v, w)),
                forall|j: int| 0 <= j < i ==> cb.ensures((&facts@[j].0, facts@[j].1), true),
            decreases facts@.len() - i,
        {
            let (v, w) = facts[i];
            let keep = cb(&v, w);
            i = i + 1;
            if !keep {
                return Ok(i);
            }
        }
        Ok(i)
    }

    /// Checks an index before the engine dumps it; returns its identifier.
    pub fn dump_index(&mut self, index: IdxId) -> (r: Result<IdxId, TxnError>)
        ensures
            final(self).transcript() == recorded(old(self).transcript(), seq![ReplayCommand::DumpIndex(index)]),
            final(self).schema == old(self).schema,
            final(self).update_handler == old(self).update_handler,
            final(self).batch == old(self).batch,
            final(self).in_transaction == old(self).in_transaction,
            r == if index < old(self).schema.indexes@.len() {
                Ok::<IdxId, TxnError>(index)
            } else {
                Err(TxnError::UnknownIndexId(index))
            },
    {
        record(&mut self.replay_file, ReplayCommand::DumpIndex(index));
        if index < self.schema.indexes.len() {
            Ok(index)
        } else {
            Err(TxnError::UnknownIndexId(index))
        }
    }

    /// Checks an index before the engine looks `key` up in it.
    pub fn query_index(&mut self, index: IdxId, key: DDValue) -> (r: Result<IdxId, TxnError>)
        ensures
            final(self).transcript() == recorded(old(self).transcript(), seq![ReplayCommand::QueryIndex(index, key)]),
            final(self).schema == old(self).schema,
            final(self).update_handler == old(self).update_handler,
            final(self).batch == old(self).batch,
            final(self).in_transaction == old(self).in_transaction,
            r == if index < old(self).schema.indexes@.len() {
                Ok::<IdxId, TxnError>(index)
            } else {
                Err(TxnError::UnknownIndexId(index))
            },
    {
        record(&mut self.replay_file, ReplayCommand::QueryIndex(index, key));
        if index < self.schema.indexes.len() {
            Ok(index)
        } else {
            Err(TxnError::UnknownIndexId(index))
        }
    }

    /// Converts a generic key for index `index`; the query is recorded only
    /// where the key converts.  Returns the typed key to look up.
    pub fn query_index_rec(&mut self, index: IdxId, key: &Record) -> (r: Result<DDValue, TxnError>)
        ensures
            r == old(self).schema.spec_idxkey(index, *key),
            r is Ok ==> final(self).transcript() == recorded(
                old(self).transcript(),
                seq![ReplayCommand::QueryIndex(index, r->Ok_0)],
            ),
            r is Err ==> final(self).replay_file == old(self).replay_file,
            final(self).schema == old(self).schema,
            final(self).update_handler == old(self).update_handler,
            final(self).batch == old(self).batch,
            final(self).in_transaction == old(self).in_transaction,
    {
        let k = self.schema.idxkey_from_record(index, key)?;
        record(&mut self.replay_file, ReplayCommand::QueryIndex(index, k));
        Ok(k)
    }

    /// Checks that relation `table` can be cleared in the open transaction.
    pub fn clear_relation(&mut self, table: RelId) -> (r: Result<(), TxnError>)
        ensures
            final(self).transcript() == recorded(old(self).transcript(), seq![ReplayCommand::Clear(table)]),
            final(self).schema == old(self).schema,
            final(self).update_handler == old(self).update_handler,
            final(self).batch == old(self).batch,
            final(self).in_transaction == old(self).in_transaction,
            r == if !old(self).in_transaction {
                Err::<(), TxnError>(TxnError::NoTransaction)
            } else if table >= old(self).rels().len() {
                Err(TxnError::UnknownRelationId(table))
            } else {
                Ok(())
            },
    {
        record(&mut self.replay_file, ReplayCommand::Clear(table));
        if !self.in_transaction {
            Err(TxnError::NoTransaction)
        } else if table >= self.schema.relations.len() {
            Err(TxnError::UnknownRelationId(table))
        } else {
            Ok(())
        }
    }

    pub fn enable_cpu_profiling(&mut self, enable: bool)
        ensures
            final(self).transcript() == recorded(old(self).transcript(), seq![ReplayCommand::CpuProfiling(enable)]),
            final(self).cpu_profiling == enable,
            final(self).timely_profiling == old(self).timely_profiling,
            final(self).schema == old(self).schema,
            final(self).update_handler == old(self).update_handler,
            final(self).batch == old(self).batch,
            final(self).in_transaction == old(self).in_transaction,
    {
        record(&mut self.replay_file, ReplayCommand::CpuProfiling(enable));
        self.cpu_profiling = enable;
    }

    pub fn enable_timely_profiling(&mut self, enable: bool)
        ensures
            final(self).transcript() == recorded(old(self).transcript(), seq![ReplayCommand::TimelyProfiling(enable)]),
            final(self).timely_profiling == enable,
            final(self).cpu_profiling == old(self).cpu_profiling,
            final(self).schema == old(self).schema,
            final(self).update_handler == old(self).update_handler,
            final(self).batch == old(self).batch,
            final(self).in_transaction == old(self).in_transaction,
    {
        record(&mut self.replay_file, ReplayCommand::TimelyProfiling(enable));
        self.timely_profiling = enable;
    }

    /// Records a request for the runtime profile, which the engine renders.
    pub fn profile(&mut self)
        ensures
            final(self).transcript() == recorded(old(self).transcript(), seq![ReplayCommand::Profile]),
            final(self).schema == old(self).schema,
            final(self).update_handler == old(self).update_handler,
            final(self).batch == old(self).batch,
            final(self).in_transaction == old(self).in_transaction,
            final(self).cpu_profiling == old(self).cpu_profiling,
            final(self).timely_profiling == old(self).timely_profiling,
    {
        record(&mut self.replay_file, ReplayCommand::Profile);
    }

    /// Stops the engine: an open transaction is dropped.
    pub fn stop(&mut self) -> (r: Result<(), TxnError>)
        ensures
            r is Ok,
            !final(self).in_transaction,
            final(self).batch@.len() == 0,
            final(self).schema == old(self).schema,
            final(self).update_handler == old(self).update_handler,
            final(self).replay_file == old(self).replay_file,
    {
        self.in_transaction = false;
        self.batch = Vec::new();
        Ok(())
    }

    /// The changes with which input multiset relations answer the open
    /// batch.
    pub fn batch_changes(&self) -> (r: Vec<Change>)
        ensures
            r@ == input_changes(self.batch@),
    {
        let mut r: Vec<Change> = Vec::new();
        let mut i: usize = 0;
        while i < self.batch.len()
            invariant
                i <= self.batch@.len(),
                r@ == input_changes(self.batch@.take(i as int)),
            decreases self.batch@.len() - i,
        {
            proof {
                assert(self.batch@.take(i + 1).drop_last() =~= self.batch@.take(i as int));
                assert(self.batch@.take(i + 1).last() == self.batch@[i as int]);
            }
            match self.batch[i] {
                Update::Insert { relid, v } => {
                    r.push(Change { relid, value: v, weight: 1 });
                },
                Update::DeleteValue { relid, v } => {
                    r.push(Change { relid, value: v, weight: -1 });
                },
                _ => {},
            }
            i = i + 1;
        }
        proof {
            assert(self.batch@.take(i as int) =~= self.batch@);
        }
        r
    }
}

/// A batch whose validation fails at some prefix fails with that prefix's error.
pub proof fn lemma_validate_prefix(rels: Seq<RelationDecl>, us: Seq<Update>, n: int)
    requires
        0 <= n <= us.len(),
        spec_validate_all(rels, us.take(n)) is Err,
    ensures
        spec_validate_all(rels, us) == spec_validate_all(rels, us.take(n)),
    decreases us.len() - n,
{
    if n < us.len() {
        assert(us.take(n + 1).drop_last() =~= us.take(n));
        lemma_validate_prefix(rels, us, n + 1);
    } else {
        assert(us.take(n) =~= us);
    }
}

} // verus!
