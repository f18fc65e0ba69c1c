use vstd::prelude::*;

use crate::delta::{add_weight, no_zero_weights, weight_of, with_weight, FactKey};
use crate::engine::{commit_events, input_changes, lemma_validate_prefix, spec_apply_valupdates};
use crate::error::TxnError;
use crate::handler::{
    apply_changes, change_key, changes_fit, lemma_apply_is_net, net_changes, HandlerEvent,
};
use crate::schema::{spec_validate, spec_validate_all, RelationDecl};
use crate::types::{Change, DDValue, RelId, Update};

verus! {

/// Sum of the weights that `cs` carries for fact `k`.
pub open spec fn sum_weight(cs: Seq<Change>, k: FactKey) -> int
    decreases cs.len(),
{
    if cs.len() == 0 {
        0
    } else {
        sum_weight(cs.drop_last(), k) + if change_key(cs.last()) == k {
            cs.last().weight as int
        } else {
            0
        }
    }
}

/// Net weight of fact `k` in a batch: one per insert of it, minus one per
/// delete of it.
pub open spec fn batch_weight(us: Seq<Update>, k: FactKey) -> int
    decreases us.len(),
{
    if us.len() == 0 {
        0
    } else {
        batch_weight(us.drop_last(), k) + match us.last() {
            Update::Insert { relid, v } => if (relid, v) == k { 1int } else { 0int },
            Update::DeleteValue { relid, v } => if (relid, v) == k { -1int } else { 0int },
            _ => 0int,
        }
    }
}

proof fn lemma_weight_of_with(m: Map<FactKey, int>, k1: FactKey, w: int, k: FactKey)
    ensures
        weight_of(with_weight(m, k1, w), k) == if k == k1 { w } else { weight_of(m, k) },
{
}

/// The net map of a change sequence holds, for each fact, the sum of its
/// weights, and no zero weight.
pub proof fn lemma_net_weight(cs: Seq<Change>, k: FactKey)
    ensures
        weight_of(net_changes(Map::empty(), cs), k) == sum_weight(cs, k),
        no_zero_weights(net_changes(Map::empty(), cs)),
    decreases cs.len(),
{
    if cs.len() > 0 {
        lemma_net_weight(cs.drop_last(), k);
        let m = net_changes(Map::empty(), cs.drop_last());
        let c = cs.last();
        lemma_weight_of_with(m, change_key(c), weight_of(m, change_key(c)) + c.weight, k);
    }
}

proof fn lemma_batch_weight(us: Seq<Update>, k: FactKey)
    ensures
        sum_weight(input_changes(us), k) == batch_weight(us, k),
    decreases us.len(),
{
    if us.len() > 0 {
        let p = us.drop_last();
        lemma_batch_weight(p, k);
        let cp = input_changes(p);
        match us.last() {
            Update::Insert { relid, v } => {
                let c = Change { relid, value: v, weight: 1i64 };
                assert(cp.push(c).drop_last() =~= cp);
            },
            Update::DeleteValue { relid, v } => {
                let c = Change { relid, value: v, weight: -1i64 };
                assert(cp.push(c).drop_last() =~= cp);
            },
            _ => {},
        }
    }
}

/// While a batch's changes are added up, no weight exceeds the batch's
/// length in size, so none overflows `i64`.
proof fn lemma_batch_fits(us: Seq<Update>)
    requires
        us.len() <= i64::MAX,
    ensures
        changes_fit(Map::empty(), input_changes(us)),
        forall|k: FactKey|
            -(us.len() as int) <= #[trigger] weight_of(net_changes(Map::empty(), input_changes(us)), k)
                <= us.len() as int,
    decreases us.len(),
{
    if us.len() > 0 {
        let p = us.drop_last();
        lemma_batch_fits(p);
        let cp = input_changes(p);
        let mp = net_changes(Map::empty(), cp);
        match us.last() {
            Update::Insert { relid, v } => {
                let c = Change { relid, value: v, weight: 1i64 };
                assert(cp.push(c).drop_last() =~= cp);
                assert(cp.push(c).last() == c);
                assert forall|k: FactKey|
                    -(us.len() as int) <= #[trigger] weight_of(net_changes(Map::empty(), input_changes(us)), k)
                        <= us.len() as int by {
                    lemma_weight_of_with(mp, change_key(c), weight_of(mp, change_key(c)) + 1, k);
                    assert(weight_of(mp, k) <= p.len());
                    assert(weight_of(mp, change_key(c)) <= p.len());
                    assert(weight_of(mp, k) >= -(p.len() as int));
                    assert(weight_of(mp, change_key(c)) >= -(p.len() as int));
                }
                assert(weight_of(mp, change_key(c)) <= p.len());
            },
            Update::DeleteValue { relid, v } => {
                let c = Change { relid, value: v, weight: -1i64 };
                assert(cp.push(c).drop_last() =~= cp);
                assert(cp.push(c).last() == c);
                assert forall|k: FactKey|
                    -(us.len() as int) <= #[trigger] weight_of(net_changes(Map::empty(), input_changes(us)), k)
                        <= us.len() as int by {
                    lemma_weight_of_with(mp, change_key(c), weight_of(mp, change_key(c)) - 1, k);
                    assert(weight_of(mp, k) <= p.len());
                    assert(weight_of(mp, change_key(c)) <= p.len());
                    assert(weight_of(mp, k) >= -(p.len() as int));
                    assert(weight_of(mp, change_key(c)) >= -(p.len() as int));
                }
                assert(weight_of(mp, change_key(c)) >= -(p.len() as int));
            },
            _ => {
                assert forall|k: FactKey|
                    -(us.len() as int) <= #[trigger] weight_of(net_changes(Map::empty(), input_changes(us)), k)
                        <= us.len() as int by {
                    assert(weight_of(mp, k) <= p.len());
                    assert(weight_of(mp, k) >= -(p.len() as int));
                }
            },
        }
    }
}

/// Committing a batch whose changes are those of input multiset relations
/// yields a delta holding exactly each fact's net weight in the batch, and
/// no fact whose net weight is zero.
pub proof fn law_commit_delta_is_net(us: Seq<Update>, k: FactKey)
    requires
        us.len() <= i64::MAX,
    ensures
        changes_fit(Map::empty(), input_changes(us)),
        weight_of(apply_changes(Map::empty(), input_changes(us)), k) == batch_weight(us, k),
        apply_changes(Map::empty(), input_changes(us)).contains_key(k) <==> batch_weight(us, k) != 0,
        no_zero_weights(apply_changes(Map::empty(), input_changes(us))),
{
    lemma_batch_fits(us);
    lemma_apply_is_net(Map::empty(), input_changes(us));
    lemma_net_weight(input_changes(us), k);
    lemma_batch_weight(us, k);
}

/// Committing an empty batch yields an empty delta, and the callback sees
/// `before_commit` and `after_commit(true)` with no update between them.
pub proof fn law_empty_commit()
    ensures
        apply_changes(Map::empty(), input_changes(Seq::<Update>::empty())) == Map::<FactKey, int>::empty(),
        commit_events(input_changes(Seq::<Update>::empty()), true) == seq![
            HandlerEvent::BeforeCommit,
            HandlerEvent::AfterCommit(true),
        ],
{
    assert(commit_events(input_changes(Seq::<Update>::empty()), true) =~= seq![
        HandlerEvent::BeforeCommit,
        HandlerEvent::AfterCommit(true),
    ]);
}

/// An insert of a value followed by a delete of it, in one transaction or in
/// two, has net weight zero and leaves a store as it was; a value absent
/// before is absent after.
pub proof fn law_insert_then_delete(m: Map<FactKey, int>, relid: RelId, v: DDValue)
    requires
        no_zero_weights(m),
        weight_of(m, (relid, v)) < i64::MAX,
        weight_of(m, (relid, v)) > i64::MIN,
    ensures
        ({
            let ins = input_changes(seq![Update::Insert { relid, v }]);
            let del = input_changes(seq![Update::DeleteValue { relid, v }]);
            &&& sum_weight(ins + del, (relid, v)) == 0
            &&& sum_weight(ins, (relid, v)) + sum_weight(del, (relid, v)) == 0
            &&& apply_changes(apply_changes(m, ins), del) == m
            &&& apply_changes(m, ins + del) == m
            &&& !m.contains_key((relid, v)) ==> !apply_changes(apply_changes(m, ins), del).contains_key((relid, v))
        }),
{
    let k = (relid, v);
    let ins = input_changes(seq![Update::Insert { relid, v }]);
    let del = input_changes(seq![Update::DeleteValue { relid, v }]);
    assert(seq![Update::Insert { relid, v }].drop_last() =~= Seq::<Update>::empty());
    assert(seq![Update::DeleteValue { relid, v }].drop_last() =~= Seq::<Update>::empty());
    assert(input_changes(Seq::<Update>::empty()) =~= Seq::<Change>::empty());
    assert(seq![Update::Insert { relid, v }].last() == Update::Insert { relid, v });
    assert(seq![Update::DeleteValue { relid, v }].last() == Update::DeleteValue { relid, v });
    let ci = Change { relid, value: v, weight: 1i64 };
    let cd = Change { relid, value: v, weight: -1i64 };
    assert(ins =~= seq![ci]);
    assert(del =~= seq![cd]);
    assert(ins.drop_last() =~= Seq::<Change>::empty());
    assert(apply_changes(m, Seq::<Change>::empty()) == m);
    assert(ins.last() == ci);
    assert(del.last() == cd);
    assert(del.drop_last() =~= Seq::<Change>::empty());
    let both = ins + del;
    assert(both.drop_last() =~= ins);
    assert(both.last() == cd);
    let m1 = apply_changes(m, ins);
    assert(m1 == add_weight(m, k, 1));
    lemma_weight_of_with(m, k, weight_of(m, k) + 1, k);
    assert(weight_of(m1, k) == weight_of(m, k) + 1);
    assert(apply_changes(m1, Seq::<Change>::empty()) == m1);
    let m2 = apply_changes(m1, del);
    assert(m2 == add_weight(m1, k, -1));
    if m.contains_key(k) {
        assert(m2 =~= m);
    } else {
        assert(m2 =~= m);
    }
    assert(apply_changes(m, both) == m2);
    assert(sum_weight(Seq::<Change>::empty(), k) == 0);
    assert(sum_weight(ins, k) == 1);
    assert(sum_weight(del, k) == -1);
    assert(sum_weight(both, k) == 0);
}

/// A batch with an update whose value has not its relation's type, where
/// every update before it passes, is refused with a type mismatch for that
/// update, so nothing of it reaches the engine.
pub proof fn law_type_mismatch_rejected(rels: Seq<RelationDecl>, us: Seq<Update>, i: int)
    requires
        0 <= i < us.len(),
        us[i].spec_relid() < rels.len(),
        us[i].spec_value() is Some,
        us[i].spec_value()->Some_0.type_id != rels[us[i].spec_relid() as int].value_type,
        forall|j: int| 0 <= j < i ==> spec_validate(rels, #[trigger] us[j]) is Ok,
    ensures
        spec_apply_valupdates(true, rels, us) == Err::<(), TxnError>(TxnError::TypeMismatch {
            relid: us[i].spec_relid(),
            expected: rels[us[i].spec_relid() as int].value_type,
            actual: us[i].spec_value()->Some_0.type_id,
        }),
{
    lemma_prefix_valid(rels, us, i);
    assert(us.take(i + 1).drop_last() =~= us.take(i));
    assert(us.take(i + 1).last() == us[i]);
    lemma_validate_prefix(rels, us, i + 1);
}

proof fn lemma_prefix_valid(rels: Seq<RelationDecl>, us: Seq<Update>, n: int)
    requires
        0 <= n <= us.len(),
        forall|j: int| 0 <= j < n ==> spec_validate(rels, #[trigger] us[j]) is Ok,
    ensures
        spec_validate_all(rels, us.take(n)) is Ok,
    decreases n,
{
    if n > 0 {
        lemma_prefix_valid(rels, us, n - 1);
        assert(us.take(n).drop_last() =~= us.take(n - 1));
        assert(us.take(n).last() == us[n - 1]);
    }
}

/// A commit's notifications reach the callback in the order the changes
/// were reported, after `before_commit` and before `after_commit`; the
/// changes of a batch keep the order of its updates.
pub proof fn law_commit_order(us: Seq<Update>, success: bool)
    ensures
        ({
            let cs = input_changes(us);
            let ev = commit_events(cs, success);
            &&& ev.len() == cs.len() + 2
            &&& ev[0] == HandlerEvent::BeforeCommit
            &&& forall|i: int| 0 <= i < cs.len() ==> ev[i + 1] == HandlerEvent::Update(#[trigger] cs[i])
            &&& ev[cs.len() as int + 1] == HandlerEvent::AfterCommit(success)
        }),
        forall|i: int, j: int|
            0 <= i < j < us.len() && us[i] is Insert && us[j] is Insert ==> exists|a: int, b: int|
                0 <= a < b < input_changes(us).len() && #[trigger] input_changes(us)[a].value
                    == us[i]->Insert_v && #[trigger] input_changes(us)[b].value == us[j]->Insert_v,
{
    lemma_changes_order(us);
}

/// Each insert or delete of a batch has its change, at a position that
/// grows with its own.
proof fn lemma_changes_order(us: Seq<Update>)
    ensures
        forall|i: int, j: int|
            0 <= i < j < us.len() && us[i] is Insert && us[j] is Insert ==> exists|a: int, b: int|
                0 <= a < b < input_changes(us).len() && #[trigger] input_changes(us)[a].value
                    == us[i]->Insert_v && #[trigger] input_changes(us)[b].value == us[j]->Insert_v,
        forall|i: int|
            0 <= i < us.len() && #[trigger] us[i] is Insert ==> exists|a: int|
                0 <= a < input_changes(us).len() && input_changes(us)[a].value == us[i]->Insert_v,
    decreases us.len(),
{
    if us.len() > 0 {
        let p = us.drop_last();
        lemma_changes_order(p);
        let cp = input_changes(p);
        let c = input_changes(us);
        assert forall|a: int| 0 <= a < cp.len() implies c[a] == cp[a] by {}
        assert forall|i: int|
            0 <= i < us.len() && #[trigger] us[i] is Insert implies exists|a: int|
                0 <= a < c.len() && c[a].value == us[i]->Insert_v by {
            if i < p.len() {
                assert(p[i] == us[i]);
                let a = choose|a: int| 0 <= a < cp.len() && cp[a].value == p[i]->Insert_v;
                assert(c[a] == cp[a]);
            } else {
                assert(c[cp.len() as int].value == us[i]->Insert_v);
            }
        }
        assert forall|i: int, j: int|
            0 <= i < j < us.len() && us[i] is Insert && us[j] is Insert implies exists|a: int, b: int|
                0 <= a < b < c.len() && #[trigger] c[a].value == us[i]->Insert_v && #[trigger] c[b].value
                    == us[j]->Insert_v by {
            assert(p[i] == us[i]);
            if j < p.len() {
                assert(p[j] == us[j]);
                let (a, b) = choose|a: int, b: int|
                    0 <= a < b < cp.len() && #[trigger] cp[a].value == p[i]->Insert_v && #[trigger] cp[b].value
                        == p[j]->Insert_v;
                assert(c[a] == cp[a] && c[b] == cp[b]);
            } else {
                let a = choose|a: int| 0 <= a < cp.len() && cp[a].value == p[i]->Insert_v;
                assert(c[a] == cp[a]);
                assert(c[cp.len() as int].value == us[j]->Insert_v);
            }
        }
    }
}

} // verus!
