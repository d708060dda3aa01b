use vstd::prelude::*;

use crate::gameplay::GameplayMode;

verus! {

/// One change to a map; the number names the lane, road, intersection or route.
#[derive(Clone, Copy, Debug, PartialEq, Eq, Structural)]
pub enum EditCmd {
    ChangeLaneType(u64),
    ReverseLane(u64),
    ChangeSpeedLimit(u64),
    ChangeAccessRestrictions(u64),
    ChangeStopSign(u64),
    ChangeTrafficSignal(u64),
    CloseIntersection(u64),
    ChangeRouteSchedule(u64),
}

/// A named set of map changes.
#[derive(Clone, Debug)]
pub struct MapEdits {
    pub edits_name: String,
    pub commands: Vec<EditCmd>,
}

/// Whether a mode admits one change.
pub open spec fn cmd_allowed(mode: &GameplayMode, c: EditCmd) -> bool {
    match c {
        EditCmd::ChangeLaneType(_) | EditCmd::ReverseLane(_) | EditCmd::ChangeSpeedLimit(_)
        | EditCmd::ChangeAccessRestrictions(_) | EditCmd::CloseIntersection(_) => mode.lanes_editable(),
        EditCmd::ChangeStopSign(_) => mode.stop_signs_editable(),
        EditCmd::ChangeTrafficSignal(_) | EditCmd::ChangeRouteSchedule(_) => true,
    }
}

/// Whether a mode admits a whole set of changes: every one of them.
pub open spec fn allows_spec(mode: &GameplayMode, e: MapEdits) -> bool {
    forall|i: int| 0 <= i < e.commands@.len() ==> cmd_allowed(mode, #[trigger] e.commands@[i])
}

/// The candidates that a mode admits, in their order.
pub open spec fn allowed_spec(candidates: Seq<MapEdits>, mode: &GameplayMode) -> Seq<MapEdits> {
    candidates.filter(|e: MapEdits| allows_spec(mode, e))
}

impl GameplayMode {
    /// Whether an attempt under this mode may load these edits.
    pub fn allows(&self, edits: &MapEdits) -> (r: bool)
        ensures
            r == allows_spec(self, *edits),
    {
        let mut i: usize = 0;
        while i < edits.commands.len()
            invariant
                i <= edits.commands@.len(),
                forall|j: int| 0 <= j < i ==> cmd_allowed(self, #[trigger] edits.commands@[j]),
            decreases edits.commands@.len() - i,
        {
            let ok = match edits.commands[i] {
                EditCmd::ChangeLaneType(_) | EditCmd::ReverseLane(_) | EditCmd::ChangeSpeedLimit(_)
                | EditCmd::ChangeAccessRestrictions(_) | EditCmd::CloseIntersection(
                    _,
                ) => self.can_edit_lanes(),
                EditCmd::ChangeStopSign(_) => self.can_edit_stop_signs(),
                EditCmd::ChangeTrafficSignal(_) | EditCmd::ChangeRouteSchedule(_) => true,
            };
            if !ok {
                return false;
            }
            i = i + 1;
        }
        true
    }
}

/// The candidates that the mode admits, in their order.
pub fn allowed_edit_sets(candidates: Vec<MapEdits>, mode: &GameplayMode) -> (r: Vec<MapEdits>)
    ensures
        r@ == allowed_spec(candidates@, mode),
{
    let ghost all = candidates@;
    let mut rest = candidates;
    let mut out: Vec<MapEdits> = Vec::new();
    while rest.len() > 0
        invariant
            all.len() >= rest@.len(),
            rest@ == all.subrange(all.len() - rest@.len(), all.len() as int),
            out@ == allowed_spec(all.subrange(0, all.len() - rest@.len()), mode),
        decreases rest@.len(),
    {
        let ghost i = all.len() - rest@.len();
        let e = rest.remove(0);
        proof {
            reveal(Seq::filter);
            assert(all.subrange(0, i + 1).drop_last() =~= all.subrange(0, i));
            assert(rest@ =~= all.subrange(all.len() - rest@.len(), all.len() as int));
        }
        if mode.allows(&e) {
            out.push(e);
        }
    }
    assert(all.subrange(0, all.len() as int) =~= all);
    out
}

/// Filtering is a subset operation: nothing comes out of nothing, every edit set that
/// comes out was a candidate and is admitted, and every admitted candidate comes out.
pub proof fn allowed_edit_sets_subset(candidates: Seq<MapEdits>, mode: &GameplayMode)
    ensures
        candidates.len() == 0 ==> allowed_spec(candidates, mode).len() == 0,
        forall|e: MapEdits| #[trigger]
            allowed_spec(candidates, mode).contains(e) <==> (candidates.contains(e) && allows_spec(
                mode,
                e,
            )),
        allowed_spec(candidates, mode).len() <= candidates.len(),
{
    reveal(Seq::filter);
    broadcast use vstd::seq_lib::group_filter_ensures;
    let f = |e: MapEdits| allows_spec(mode, e);
    candidates.lemma_filter_len(f);
    assert forall|e: MapEdits| #[trigger]
        allowed_spec(candidates, mode).contains(e) <==> (candidates.contains(e) && allows_spec(
            mode,
            e,
        )) by {
        if candidates.contains(e) && allows_spec(mode, e) {
            let i = choose|i: int| 0 <= i < candidates.len() && candidates[i] == e;
            candidates.lemma_filter_contains(f, i);
        }
        if allowed_spec(candidates, mode).contains(e) {
            candidates.lemma_filter_contains_rev(f, e);
            let i = choose|i: int|
                0 <= i < allowed_spec(candidates, mode).len() && allowed_spec(candidates, mode)[i]
                    == e;
            candidates.lemma_filter_pred(f, i);
        }
    }
}

} // verus!
