use vstd::prelude::*;

use crate::delta::{add_weight, weight_of, DeltaMap, FactKey};
use crate::types::Change;

verus! {

/// A notification as the user callback handler receives it.
#[derive(Clone, Copy, Debug, PartialEq, Eq, Structural)]
pub enum HandlerEvent {
    BeforeCommit,
    Update(Change),
    AfterCommit(bool),
}

pub open spec fn change_key(c: Change) -> FactKey {
    (c.relid, c.value)
}

/// Whether adding the change's weight keeps the fact's weight within `i64`.
pub open spec fn change_fits(m: Map<FactKey, int>, c: Change) -> bool {
    i64::MIN <= weight_of(m, change_key(c)) + c.weight <= i64::MAX
}

/// A store after one change: its weight is added, unless the sum would not
/// fit, in which case the handler reports a failure and the store stays.
pub open spec fn apply_change(m: Map<FactKey, int>, c: Change) -> Map<FactKey, int> {
    if change_fits(m, c) {
        add_weight(m, change_key(c), c.weight as int)
    } else {
        m
    }
}

/// A store after a sequence of changes, applied in order.
pub open spec fn apply_changes(m: Map<FactKey, int>, cs: Seq<Change>) -> Map<FactKey, int>
    decreases cs.len(),
{
    if cs.len() == 0 {
        m
    } else {
        apply_change(apply_changes(m, cs.drop_last()), cs.last())
    }
}

/// The net weights of a sequence of changes added to `m`.
pub open spec fn net_changes(m: Map<FactKey, int>, cs: Seq<Change>) -> Map<FactKey, int>
    decreases cs.len(),
{
    if cs.len() == 0 {
        m
    } else {
        add_weight(net_changes(m, cs.drop_last()), change_key(cs.last()), cs.last().weight as int)
    }
}

/// Every intermediate weight fits in `i64` while `cs` is added to `m`.
pub open spec fn changes_fit(m: Map<FactKey, int>, cs: Seq<Change>) -> bool
    decreases cs.len(),
{
    if cs.len() == 0 {
        true
    } else {
        changes_fit(m, cs.drop_last()) && change_fits(net_changes(m, cs.drop_last()), cs.last())
    }
}

/// Where no weight overflows, a store holds exactly the net weights.
pub proof fn lemma_apply_is_net(m: Map<FactKey, int>, cs: Seq<Change>)
    requires
        changes_fit(m, cs),
    ensures
        apply_changes(m, cs) == net_changes(m, cs),
    decreases cs.len(),
{
    if cs.len() > 0 {
        lemma_apply_is_net(m, cs.drop_last());
    }
}

/// The chain of update handlers: the delta tracker, the snapshot store when
/// materialization is on, and the queue of notifications for the user
/// callback, delivered to each in that order.
pub struct UpdateHandlers {
    /// The delta tracker's map; `None` while no commit's changes are tracked.
    pub delta: Option<DeltaMap>,
    /// The snapshot store; `None` when materialization is off.
    pub store: Option<DeltaMap>,
    /// Notifications for the user callback, in delivery order.
    pub events: Vec<HandlerEvent>,
    /// Number of notifications a handler could not take.
    pub failures: usize,
}

pub open spec fn opt_wf(m: Option<DeltaMap>) -> bool {
    match m {
        Some(d) => d.wf(),
        None => true,
    }
}

pub open spec fn opt_view(m: Option<DeltaMap>) -> Option<Map<FactKey, int>> {
    match m {
        Some(d) => Some(d@),
        None => None,
    }
}

pub open spec fn opt_apply(m: Option<Map<FactKey, int>>, cs: Seq<Change>) -> Option<Map<FactKey, int>> {
    match m {
        Some(d) => Some(apply_changes(d, cs)),
        None => None,
    }
}

pub open spec fn opt_apply_one(m: Option<Map<FactKey, int>>, c: Change) -> Option<Map<FactKey, int>> {
    match m {
        Some(d) => Some(apply_change(d, c)),
        None => None,
    }
}

/// Number of failures (zero or one) that a handler holding `m` reports for `c`.
pub open spec fn opt_failure(m: Option<Map<FactKey, int>>, c: Change) -> int {
    match m {
        Some(d) => if change_fits(d, c) { 0 } else { 1 },
        None => 0,
    }
}

pub open spec fn saturating(n: int) -> usize {
    if n > usize::MAX { usize::MAX } else { n as usize }
}

pub open spec fn update_events(cs: Seq<Change>) -> Seq<HandlerEvent> {
    cs.map_values(|c: Change| HandlerEvent::Update(c))
}

/// Adds one change to a map if the weight fits; returns whether it did.
fn apply_to(d: &mut DeltaMap, c: &Change) -> (ok: bool)
    requires
        old(d).wf(),
    ensures
        final(d).wf(),
        final(d)@ == apply_change(old(d)@, *c),
        ok == change_fits(old(d)@, *c),
{
    let cur = d.get(c.relid, &c.value) as i128;
    let sum = cur + c.weight as i128;
    if sum >= i64::MIN as i128 && sum <= i64::MAX as i128 {
        d.update(c.relid, &c.value, c.weight);
        true
    } else {
        false
    }
}

impl UpdateHandlers {
    pub open spec fn wf(&self) -> bool {
        opt_wf(self.delta) && opt_wf(self.store)
    }

    /// A chain with an empty delta tracker and, where `do_store` is set, an
    /// empty snapshot store.
    pub fn new(do_store: bool) -> (r: UpdateHandlers)
        ensures
            r.wf(),
            opt_view(r.delta) == Some(Map::<FactKey, int>::empty()),
            opt_view(r.store) == (if do_store {
                Some(Map::<FactKey, int>::empty())
            } else {
                None
            }),
            r.events@ == Seq::<HandlerEvent>::empty(),
            r.failures == 0,
    {
        let store = if do_store {
            Some(DeltaMap::new())
        } else {
            None
        };
        UpdateHandlers { delta: Some(DeltaMap::new()), store, events: Vec::new(), failures: 0 }
    }

    pub fn before_commit(&mut self)
        ensures
            final(self).delta == old(self).delta,
            final(self).store == old(self).store,
            final(self).failures == old(self).failures,
            final(self).events@ == old(self).events@.push(HandlerEvent::BeforeCommit),
    {
        self.events.push(HandlerEvent::BeforeCommit);
    }

    pub fn after_commit(&mut self, success: bool)
        ensures
            final(self).delta == old(self).delta,
            final(self).store == old(self).store,
            final(self).failures == old(self).failures,
            final(self).events@ == old(self).events@.push(HandlerEvent::AfterCommit(success)),
    {
        self.events.push(HandlerEvent::AfterCommit(success));
    }

    /// Hands one changed fact to every handler of the chain, in order; a
    /// handler that cannot take it counts a failure and the rest still get it.
    pub fn update(&mut self, c: &Change)
        requires
            old(self).wf(),
        ensures
            final(self).wf(),
            opt_view(final(self).delta) == opt_apply_one(opt_view(old(self).delta), *c),
            opt_view(final(self).store) == opt_apply_one(opt_view(old(self).store), *c),
            final(self).failures == saturating(
                old(self).failures + opt_failure(opt_view(old(self).delta), *c) + opt_failure(
                    opt_view(old(self).store),
                    *c,
                ),
            ),
            final(self).events@ == old(self).events@.push(HandlerEvent::Update(*c)),
    {
        match &mut self.delta {
            Some(d) => {
                if !apply_to(d, c) {
                    self.failures = self.failures.saturating_add(1);
                }
            },
            None => {},
        }
        match &mut self.store {
            Some(s) => {
                if !apply_to(s, c) {
                    self.failures = self.failures.saturating_add(1);
                }
            },
            None => {},
        }
        self.events.push(HandlerEvent::Update(*c));
    }

    /// Hands a commit's changes to the chain in the order given.
    pub fn update_all(&mut self, changes: &Vec<Change>)
        requires
            old(self).wf(),
        ensures
            final(self).wf(),
            opt_view(final(self).delta) == opt_apply(opt_view(old(self).delta), changes@),
            opt_view(final(self).store) == opt_apply(opt_view(old(self).store), changes@),
            final(self).events@ == old(self).events@ + update_events(changes@),
    {
        let mut i: usize = 0;
        while i < changes.len()
            invariant
                self.wf(),
                i <= changes@.len(),
                opt_view(self.delta) == opt_apply(opt_view(old(self).delta), changes@.take(i as int)),
                opt_view(self.store) == opt_apply(opt_view(old(self).store), changes@.take(i as int)),
                self.events@ == old(self).events@ + update_events(changes@.take(i as int)),
            decreases changes@.len() - i,
        {
            proof {
                assert(changes@.take(i + 1).drop_last() =~= changes@.take(i as int));
                assert(update_events(changes@.take(i + 1)) =~= update_events(changes@.take(i as int)).push(
                    HandlerEvent::Update(changes@[i as int]),
                ));
            }
            self.update(&changes[i]);
            proof {
                let t = changes@.take(i + 1);
                match old(self).delta {
                    Some(d) => {
                        assert(apply_changes(d@, t) == apply_change(apply_changes(d@, t.drop_last()), t.last()));
                    },
                    None => {},
                }
                match old(self).store {
                    Some(d) => {
                        assert(apply_changes(d@, t) == apply_change(apply_changes(d@, t.drop_last()), t.last()));
                    },
                    None => {},
                }
            }
            i = i + 1;
        }
        proof {
            assert(changes@.take(i as int) =~= changes@);
        }
    }
}

} // verus!
