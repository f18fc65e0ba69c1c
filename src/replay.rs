use vstd::prelude::*;

use crate::types::{DDValue, IdxId, RelId, Update};

verus! {

/// One lifecycle call as the replay transcript holds it.
#[derive(Clone, Copy, Debug, PartialEq, Eq, Structural)]
pub enum ReplayCommand {
    Start,
    Update(Update),
    /// A commit; `true` where the caller asked for the committed changes.
    Commit(bool),
    Rollback,
    Clear(RelId),
    Dump(RelId),
    DumpIndex(IdxId),
    QueryIndex(IdxId, DDValue),
    CpuProfiling(bool),
    TimelyProfiling(bool),
    Profile,
}

/// A transcript after `cmds` are appended, where one is attached.
pub open spec fn recorded(t: Option<Seq<ReplayCommand>>, cmds: Seq<ReplayCommand>) -> Option<Seq<ReplayCommand>> {
    match t {
        Some(s) => Some(s + cmds),
        None => None,
    }
}

pub open spec fn transcript_view(t: Option<Vec<ReplayCommand>>) -> Option<Seq<ReplayCommand>> {
    match t {
        Some(v) => Some(v@),
        None => None,
    }
}

pub open spec fn update_commands(us: Seq<Update>) -> Seq<ReplayCommand> {
    us.map_values(|u: Update| ReplayCommand::Update(u))
}

/// Appends one command to the transcript, where one is attached.
pub fn record(t: &mut Option<Vec<ReplayCommand>>, c: ReplayCommand)
    ensures
        transcript_view(*final(t)) == recorded(transcript_view(*old(t)), seq![c]),
{
    match t {
        Some(v) => {
            v.push(c);
        },
        None => {},
    }
}

/// Appends one command per update, in order.
pub fn record_updates(t: &mut Option<Vec<ReplayCommand>>, us: &Vec<Update>)
    ensures
        transcript_view(*final(t)) == recorded(transcript_view(*old(t)), update_commands(us@)),
{
    let mut i: usize = 0;
    while i < us.len()
        invariant
            i <= us@.len(),
            transcript_view(*t) == recorded(transcript_view(*old(t)), update_commands(us@.take(i as int))),
        decreases us@.len() - i,
    {
        record(t, ReplayCommand::Update(us[i]));
        proof {
            assert(update_commands(us@.take(i + 1)) =~= update_commands(us@.take(i as int)).push(
                ReplayCommand::Update(us@[i as int]),
            ));
            match *old(t) {
                Some(v) => {
                    assert(v@ + update_commands(us@.take(i + 1)) =~= v@ + update_commands(us@.take(i as int))
                        + seq![ReplayCommand::Update(us@[i as int])]);
                },
                None => {},
            }
        }
        i = i + 1;
    }
    proof {
        assert(us@.take(i as int) =~= us@);
    }
}

} // verus!
