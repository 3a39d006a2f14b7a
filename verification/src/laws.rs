use vstd::prelude::*;
use crate::errors::MissionError;
use crate::mission_statuses::MissionStatuses;
use crate::model::{after, after_calls, reply, reply_to_call, MissionState, Missions, Operation};

verus! {

/// One operation keeps the roster within the bound and free of repetition.
pub proof fn lemma_step_keeps_roster_sound(state: MissionState, op: Operation, max_crew: u32)
    ensures
        state.within_capacity(max_crew) ==> state.step(op, max_crew).within_capacity(max_crew),
        state.well_formed() ==> state.step(op, max_crew).well_formed(),
        state.step(op, max_crew).entity.chief_id == state.entity.chief_id,
        state.step(op, max_crew).entity.id == state.entity.id,
{
    match op {
        Operation::Join { brawler_id } => {
            if state.outcome(op, max_crew) is Ok {
                assert(!state.crew.contains(brawler_id));
                let grown = state.crew.push(brawler_id);
                if state.well_formed() {
                    assert forall|i: int, j: int|
                        0 <= i < grown.len() && 0 <= j < grown.len() && i != j implies grown[i]
                        != grown[j] by {
                        if i < state.crew.len() && j < state.crew.len() {
                        } else if i < state.crew.len() {
                            assert(state.crew.contains(state.crew[i]));
                        } else {
                            assert(state.crew.contains(state.crew[j]));
                        }
                    }
                }
            }
        },
        Operation::Leave { brawler_id } => {
            if state.outcome(op, max_crew) is Ok {
                assert(state.crew.contains(brawler_id));
                let at = state.crew.index_of(brawler_id);
                assert(0 <= at < state.crew.len());
                let rest = state.crew.remove(at);
                if state.well_formed() {
                    assert forall|i: int, j: int|
                        0 <= i < rest.len() && 0 <= j < rest.len() && i != j implies rest[i]
                        != rest[j] by {
                        let i0 = if i < at { i } else { i + 1 };
                        let j0 = if j < at { j } else { j + 1 };
                        assert(rest[i] == state.crew[i0] && rest[j] == state.crew[j0]);
                    }
                }
            }
        },
        _ => {},
    }
}

/// Whatever operations are applied to a mission whose
/// roster is within the bound, the crew count stays between 0 and the bound
/// after each of them.
pub proof fn law_crew_stays_within_bound(state: MissionState, ops: Seq<Operation>, max_crew: u32)
    requires
        state.within_capacity(max_crew),
    ensures
        forall|n: int|
            0 <= n <= ops.len() ==> 0 <= (#[trigger] state.run(ops.take(n), max_crew)).crew_count()
                <= max_crew,
    decreases ops.len(),
{
    assert forall|n: int| 0 <= n <= ops.len() implies 0 <= (#[trigger] state.run(
        ops.take(n),
        max_crew,
    )).crew_count() <= max_crew by {
        lemma_run_keeps_roster_sound(state, ops.take(n), max_crew);
    }
}

/// A run of operations keeps the roster within the bound and free of
/// repetition, and leaves the chief in place.
pub proof fn lemma_run_keeps_roster_sound(state: MissionState, ops: Seq<Operation>, max_crew: u32)
    ensures
        state.within_capacity(max_crew) ==> state.run(ops, max_crew).within_capacity(max_crew),
        state.well_formed() ==> state.run(ops, max_crew).well_formed(),
        state.run(ops, max_crew).entity.chief_id == state.entity.chief_id,
        state.run(ops, max_crew).entity.id == state.entity.id,
    decreases ops.len(),
{
    if ops.len() > 0 {
        lemma_run_keeps_roster_sound(state, ops.drop_last(), max_crew);
        lemma_step_keeps_roster_sound(state.run(ops.drop_last(), max_crew), ops.last(), max_crew);
    }
}

/// `Completed` has no outgoing transition: on a
/// completed mission every operation is refused and changes nothing, so no
/// sequence of operations brings the mission back to `Open` or `Failed`, or
/// to any other status.
pub proof fn law_completed_is_terminal(state: MissionState, ops: Seq<Operation>, max_crew: u32)
    requires
        state.entity.status.is_terminal(),
    ensures
        forall|op: Operation| #[trigger] state.outcome(op, max_crew) is Err,
        state.run(ops, max_crew) == state,
    decreases ops.len(),
{
    if ops.len() > 0 {
        law_completed_is_terminal(state, ops.drop_last(), max_crew);
    }
}

/// One operation either leaves the status as it is or moves it along a
/// transition of the table; roster operations never touch the mission
/// itself, and lifecycle operations never touch the roster.
pub proof fn law_status_follows_transitions(state: MissionState, op: Operation, max_crew: u32)
    ensures
        state.step(op, max_crew).entity.status == state.entity.status
            || state.entity.status.leads_to(state.step(op, max_crew).entity.status),
        (op is Join || op is Leave) ==> state.step(op, max_crew).entity == state.entity,
        (op is Start || op is Complete || op is Fail) ==> state.step(op, max_crew).crew
            == state.crew,
{
}

/// The actor of a lifecycle operation; `None` for a roster operation.
pub open spec fn actor_of(op: Operation) -> Option<i32> {
    match op {
        Operation::Start { actor } => Some(actor),
        Operation::Complete { actor } => Some(actor),
        Operation::Fail { actor } => Some(actor),
        _ => None,
    }
}

/// The status that the lifecycle operation `op` asks for.
pub open spec fn target_of(op: Operation) -> MissionStatuses {
    match op {
        Operation::Start { .. } => MissionStatuses::InProgress,
        Operation::Complete { .. } => MissionStatuses::Completed,
        _ => MissionStatuses::Failed,
    }
}

/// The status and the crew count admit the lifecycle operation `op`,
/// whoever asks for it.
pub open spec fn transition_open(state: MissionState, op: Operation, max_crew: u32) -> bool {
    match op {
        Operation::Start { .. } => state.entity.status.is_open_or_failed() && 1
            <= state.crew_count() <= max_crew,
        Operation::Complete { .. } => state.entity.status == MissionStatuses::InProgress,
        Operation::Fail { .. } => state.entity.status == MissionStatuses::InProgress,
        _ => false,
    }
}

/// `start`, `complete` and `fail` asked by anyone but the
/// chief fail and change nothing. The error is `Unauthorized` exactly where
/// status and crew count would have admitted the transition; where they do
/// not, the error names that rule, which is checked first.
pub proof fn law_only_the_chief_drives(state: MissionState, op: Operation, max_crew: u32)
    requires
        actor_of(op) matches Some(actor) && actor != state.entity.chief_id,
    ensures
        state.outcome(op, max_crew) is Err,
        state.step(op, max_crew) == state,
        transition_open(state, op, max_crew) <==> state.outcome(op, max_crew) == Err::<
            (),
            MissionError,
        >(
            MissionError::Unauthorized {
                chief_id: state.entity.chief_id,
                requested: target_of(op),
            },
        ),
{
}

/// Asked by the chief, `start` succeeds exactly where the
/// status is `Open` or `Failed` and the crew count lies between one and the
/// bound; `complete` and `fail` succeed exactly where the status is
/// `InProgress`. A success writes the target status and nothing else.
pub proof fn law_chief_moves_the_status(state: MissionState, op: Operation, max_crew: u32)
    requires
        actor_of(op) == Some(state.entity.chief_id),
    ensures
        state.outcome(op, max_crew) is Ok <==> transition_open(state, op, max_crew),
        state.outcome(op, max_crew) is Ok ==> state.step(op, max_crew) == state.with_status(
            target_of(op),
        ),
        state.outcome(op, max_crew) is Err ==> state.step(op, max_crew) == state,
{
}

/// A brawler who is not enrolled joins exactly where the
/// status is `Open` or `Failed` and the crew count is below the bound, and
/// is enrolled afterwards with the count one higher. A brawler leaves
/// exactly where the status is `Open` or `Failed` and they are enrolled, and
/// is not enrolled afterwards with the count one lower.
pub proof fn law_roster_admits_and_releases(state: MissionState, brawler_id: i32, max_crew: u32)
    requires
        state.well_formed(),
    ensures
        !state.has_member(brawler_id) ==> (state.outcome(
            Operation::Join { brawler_id },
            max_crew,
        ) is Ok <==> state.entity.status.is_open_or_failed() && state.crew_count() < max_crew),
        state.outcome(Operation::Join { brawler_id }, max_crew) is Ok ==> {
            let next = state.step(Operation::Join { brawler_id }, max_crew);
            next.has_member(brawler_id) && next.crew_count() == state.crew_count() + 1
        },
        state.outcome(Operation::Leave { brawler_id }, max_crew) is Ok
            <==> state.entity.status.is_open_or_failed() && state.has_member(brawler_id),
        state.outcome(Operation::Leave { brawler_id }, max_crew) is Ok ==> {
            let next = state.step(Operation::Leave { brawler_id }, max_crew);
            !next.has_member(brawler_id) && next.crew_count() == state.crew_count() - 1
        },
{
    if state.outcome(Operation::Join { brawler_id }, max_crew) is Ok {
        let grown = state.crew.push(brawler_id);
        assert(grown[state.crew.len() as int] == brawler_id);
    }
    if state.outcome(Operation::Leave { brawler_id }, max_crew) is Ok {
        let at = state.crew.index_of(brawler_id);
        assert(state.crew.contains(brawler_id));
        assert(0 <= at < state.crew.len() && state.crew[at] == brawler_id);
        let rest = state.crew.remove(at);
        if rest.contains(brawler_id) {
            let k = choose|k: int| 0 <= k < rest.len() && rest[k] == brawler_id;
            let k0 = if k < at { k } else { k + 1 };
            assert(state.crew[k0] == brawler_id);
        }
    }
}

/// A join by a brawler who is enrolled fails and
/// changes nothing, so the crew count stays as it is. The error is
/// `DuplicateMembership` exactly where the status is `Open` or `Failed` and
/// the roster is not full; those two rules are checked first.
pub proof fn law_enrolled_cannot_join(state: MissionState, brawler_id: i32, max_crew: u32)
    requires
        state.has_member(brawler_id),
    ensures
        state.outcome(Operation::Join { brawler_id }, max_crew) is Err,
        state.step(Operation::Join { brawler_id }, max_crew) == state,
        (state.entity.status.is_open_or_failed() && state.crew_count() < max_crew) <==> state.outcome(
            Operation::Join { brawler_id },
            max_crew,
        ) == Err::<(), MissionError>(MissionError::DuplicateMembership),
{
}

/// A second join right after a successful one is refused and leaves the
/// crew count unchanged; unless the first join filled the roster, the error
/// is `DuplicateMembership`.
pub proof fn law_second_join_is_refused(state: MissionState, brawler_id: i32, max_crew: u32)
    requires
        state.outcome(Operation::Join { brawler_id }, max_crew) is Ok,
    ensures
        ({
            let joined = state.step(Operation::Join { brawler_id }, max_crew);
            &&& joined.outcome(Operation::Join { brawler_id }, max_crew) is Err
            &&& joined.step(Operation::Join { brawler_id }, max_crew) == joined
            &&& joined.crew_count() < max_crew ==> joined.outcome(
                Operation::Join { brawler_id },
                max_crew,
            ) == Err::<(), MissionError>(MissionError::DuplicateMembership)
        }),
{
    let grown = state.crew.push(brawler_id);
    assert(grown[state.crew.len() as int] == brawler_id);
}

/// The number of operations of `ops` that are accepted when they are
/// applied, first to last, to `state`.
pub open spec fn accepted(state: MissionState, ops: Seq<Operation>, max_crew: u32) -> nat
    decreases ops.len(),
{
    if ops.len() == 0 {
        0
    } else {
        let earlier = accepted(state, ops.drop_last(), max_crew);
        if state.run(ops.drop_last(), max_crew).outcome(ops.last(), max_crew) is Ok {
            earlier + 1
        } else {
            earlier
        }
    }
}

/// Every operation of `ops` is a join.
pub open spec fn all_joins(ops: Seq<Operation>) -> bool {
    forall|i: int| 0 <= i < ops.len() ==> #[trigger] ops[i] is Join
}

/// Of any number of joins applied one after another to a
/// mission with `k` free slots, at most `k` are accepted: each accepted join
/// takes one slot, and the roster never exceeds the bound.
pub proof fn law_joins_take_free_slots(state: MissionState, ops: Seq<Operation>, max_crew: u32)
    requires
        state.within_capacity(max_crew),
        all_joins(ops),
    ensures
        state.run(ops, max_crew).crew_count() == state.crew_count() + accepted(
            state,
            ops,
            max_crew,
        ),
        accepted(state, ops, max_crew) <= max_crew - state.crew_count(),
        state.run(ops, max_crew).entity == state.entity,
    decreases ops.len(),
{
    if ops.len() > 0 {
        let earlier = ops.drop_last();
        assert(all_joins(earlier)) by {
            assert forall|i: int| 0 <= i < earlier.len() implies #[trigger] earlier[i] is Join by {
                assert(ops[i] is Join);
            }
        }
        law_joins_take_free_slots(state, earlier, max_crew);
        assert(ops.last() == ops[ops.len() - 1]);
        assert(ops[ops.len() - 1] is Join);
        lemma_run_keeps_roster_sound(state, ops, max_crew);
    }
}

/// The joins of the brawlers of `brawlers`, in that order.
pub open spec fn joins_of(brawlers: Seq<i32>) -> Seq<Operation> {
    Seq::new(brawlers.len(), |i: int| Operation::Join { brawler_id: brawlers[i] })
}

/// When distinct brawlers, none of them
/// enrolled, join a joinable mission one after another, each join is either
/// accepted or refused with `CapacityExceeded`: the first `k` are accepted,
/// `k` being the number of free slots, and all later ones are refused.
pub proof fn law_newcomers_fill_free_slots(state: MissionState, brawlers: Seq<i32>, max_crew: u32)
    requires
        state.within_capacity(max_crew),
        state.entity.status.is_open_or_failed(),
        brawlers.no_duplicates(),
        forall|i: int| 0 <= i < brawlers.len() ==> !state.has_member(#[trigger] brawlers[i]),
    ensures
        ({
            let free = max_crew - state.crew_count();
            let taken = if brawlers.len() <= free { brawlers.len() as int } else { free };
            &&& state.run(joins_of(brawlers), max_crew).crew == state.crew + brawlers.take(taken)
            &&& accepted(state, joins_of(brawlers), max_crew) == taken
            &&& forall|n: int|
                0 <= n < brawlers.len() ==> (#[trigger] state.run(
                    joins_of(brawlers).take(n),
                    max_crew,
                )).outcome(joins_of(brawlers)[n], max_crew) == if n < free {
                    Ok::<(), MissionError>(())
                } else {
                    Err::<(), MissionError>(MissionError::CapacityExceeded { max_crew })
                }
        }),
    decreases brawlers.len(),
{
    let free = max_crew - state.crew_count();
    let ops = joins_of(brawlers);
    if brawlers.len() == 0 {
        assert(state.crew + brawlers.take(0) =~= state.crew);
    } else {
        let earlier = brawlers.drop_last();
        let newcomer = brawlers.last();
        let m = earlier.len() as int;
        assert(ops.drop_last() =~= joins_of(earlier));
        assert(ops.last() == Operation::Join { brawler_id: newcomer });
        assert(earlier.no_duplicates());
        assert forall|i: int| 0 <= i < earlier.len() implies !state.has_member(
            #[trigger] earlier[i],
        ) by {
            assert(earlier[i] == brawlers[i]);
        }
        law_newcomers_fill_free_slots(state, earlier, max_crew);
        assert(all_joins(joins_of(earlier)));
        law_joins_take_free_slots(state, joins_of(earlier), max_crew);
        let before = state.run(joins_of(earlier), max_crew);
        let taken_before = if m <= free { m } else { free };
        assert(before.crew == state.crew + earlier.take(taken_before));
        assert(!before.has_member(newcomer)) by {
            if before.crew.contains(newcomer) {
                let k = choose|k: int| 0 <= k < before.crew.len() && before.crew[k] == newcomer;
                if k < state.crew.len() {
                    assert(state.crew[k] == newcomer);
                    assert(state.crew.contains(newcomer));
                    assert(brawlers[m] == newcomer);
                } else {
                    let j = k - state.crew.len();
                    assert(earlier[j] == newcomer);
                    assert(brawlers[j] == brawlers[m]);
                }
            }
        }
        let taken = if brawlers.len() <= free { brawlers.len() as int } else { free };
        if m < free {
            assert(before.outcome(ops.last(), max_crew) is Ok);
            assert(state.run(ops, max_crew).crew =~= state.crew + brawlers.take(taken));
        } else {
            assert(before.outcome(ops.last(), max_crew) == Err::<(), MissionError>(
                MissionError::CapacityExceeded { max_crew },
            ));
            assert(brawlers.take(taken) =~= earlier.take(taken_before));
        }
        assert forall|n: int| 0 <= n < brawlers.len() implies (#[trigger] state.run(
            ops.take(n),
            max_crew,
        )).outcome(ops[n], max_crew) == if n < free {
            Ok::<(), MissionError>(())
        } else {
            Err::<(), MissionError>(MissionError::CapacityExceeded { max_crew })
        } by {
            if n < m {
                assert(ops.take(n) =~= joins_of(earlier).take(n));
                assert(ops[n] == joins_of(earlier)[n]);
            } else {
                assert(ops.take(n) =~= joins_of(earlier));
            }
        }
    }
}

/// Why the check and the write of a join must be one step. Two newcomers
/// who both look at a roster with one free slot are both told that there is
/// room; if both rows are then written, the roster exceeds the bound. Asked
/// one after the other, the second is refused with `CapacityExceeded`.
pub proof fn law_stale_checks_overfill(
    state: MissionState,
    first: i32,
    second: i32,
    max_crew: u32,
)
    requires
        state.entity.status.is_open_or_failed(),
        state.crew_count() + 1 == max_crew,
        first != second,
        !state.has_member(first),
        !state.has_member(second),
    ensures
        state.outcome(Operation::Join { brawler_id: first }, max_crew) is Ok,
        state.outcome(Operation::Join { brawler_id: second }, max_crew) is Ok,
        !state.enroll(first).enroll(second).within_capacity(max_crew),
        state.step(Operation::Join { brawler_id: first }, max_crew).outcome(
            Operation::Join { brawler_id: second },
            max_crew,
        ) == Err::<(), MissionError>(MissionError::CapacityExceeded { max_crew }),
        state.run(
            seq![Operation::Join { brawler_id: first }, Operation::Join { brawler_id: second }],
            max_crew,
        ).within_capacity(max_crew),
{
    let ops = seq![Operation::Join { brawler_id: first }, Operation::Join { brawler_id: second }];
    lemma_run_keeps_roster_sound(state, ops, max_crew);
}

/// An operation that is refused changes no mission, and an operation that
/// is accepted changes the mission it was asked of and no other; no
/// operation makes a mission appear or disappear.
pub proof fn law_only_the_mission_asked_changes(
    missions: Missions,
    mission_id: i32,
    op: Operation,
    max_crew: u32,
)
    ensures
        reply(missions, mission_id, op, max_crew) is Err ==> after(
            missions,
            mission_id,
            op,
            max_crew,
        ) == missions,
        after(missions, mission_id, op, max_crew).dom() == missions.dom(),
        forall|other: i32|
            other != mission_id && missions.dom().contains(other) ==> #[trigger] after(
                missions,
                mission_id,
                op,
                max_crew,
            )[other] == missions[other],
{
    if missions.dom().contains(mission_id) {
        assert(missions.insert(mission_id, missions[mission_id]) =~= missions);
        assert(after(missions, mission_id, op, max_crew).dom() =~= missions.dom());
    }
}

/// Calls made one after another on a visible mission leave it in the state
/// that the run of their operations gives, and every other mission as it
/// was; each call is answered by the verdict of the state that the earlier
/// calls left behind.
pub proof fn law_calls_run_the_operations(
    missions: Missions,
    mission_id: i32,
    ops: Seq<Operation>,
    max_crew: u32,
)
    requires
        missions.dom().contains(mission_id),
    ensures
        after_calls(missions, mission_id, ops, max_crew) == missions.insert(
            mission_id,
            missions[mission_id].run(ops, max_crew),
        ),
        forall|n: int|
            0 <= n < ops.len() ==> #[trigger] reply_to_call(
                missions,
                mission_id,
                ops,
                n,
                max_crew,
            ) == missions[mission_id].run(ops.take(n), max_crew).outcome(ops[n], max_crew),
    decreases ops.len(),
{
    if ops.len() == 0 {
        assert(missions.insert(mission_id, missions[mission_id]) =~= missions);
    } else {
        law_calls_run_the_operations(missions, mission_id, ops.drop_last(), max_crew);
        let reached = missions.insert(
            mission_id,
            missions[mission_id].run(ops.drop_last(), max_crew),
        );
        assert(after(reached, mission_id, ops.last(), max_crew) =~= missions.insert(
            mission_id,
            missions[mission_id].run(ops, max_crew),
        ));
    }
    assert forall|n: int| 0 <= n < ops.len() implies #[trigger] reply_to_call(
        missions,
        mission_id,
        ops,
        n,
        max_crew,
    ) == missions[mission_id].run(ops.take(n), max_crew).outcome(ops[n], max_crew) by {
        lemma_calls_reach_the_run(missions, mission_id, ops.take(n), max_crew);
    }
}

/// The state that calls made one after another leave of the mission they
/// were made on.
pub proof fn lemma_calls_reach_the_run(
    missions: Missions,
    mission_id: i32,
    ops: Seq<Operation>,
    max_crew: u32,
)
    requires
        missions.dom().contains(mission_id),
    ensures
        after_calls(missions, mission_id, ops, max_crew).dom().contains(mission_id),
        after_calls(missions, mission_id, ops, max_crew)[mission_id]
            == missions[mission_id].run(ops, max_crew),
    decreases ops.len(),
{
    if ops.len() > 0 {
        lemma_calls_reach_the_run(missions, mission_id, ops.drop_last(), max_crew);
    }
}

/// Joins that take turns. When distinct brawlers, none of them enrolled,
/// call `join` on a joinable mission with `k` free slots, one call after
/// another in whatever order, the first `k` calls are accepted and every
/// later call is refused with `CapacityExceeded`; the roster ends within the
/// bound, with the accepted brawlers behind those who were enrolled before.
pub proof fn law_joins_in_turn(
    missions: Missions,
    mission_id: i32,
    brawlers: Seq<i32>,
    max_crew: u32,
)
    requires
        missions.dom().contains(mission_id),
        missions[mission_id].within_capacity(max_crew),
        missions[mission_id].entity.status.is_open_or_failed(),
        brawlers.no_duplicates(),
        forall|i: int|
            0 <= i < brawlers.len() ==> !missions[mission_id].has_member(#[trigger] brawlers[i]),
    ensures
        ({
            let state = missions[mission_id];
            let free = max_crew - state.crew_count();
            let taken = if brawlers.len() <= free { brawlers.len() as int } else { free };
            let end = after_calls(missions, mission_id, joins_of(brawlers), max_crew);
            &&& forall|n: int|
                0 <= n < brawlers.len() ==> #[trigger] reply_to_call(
                    missions,
                    mission_id,
                    joins_of(brawlers),
                    n,
                    max_crew,
                ) == if n < free {
                    Ok::<(), MissionError>(())
                } else {
                    Err::<(), MissionError>(MissionError::CapacityExceeded { max_crew })
                }
            &&& end == missions.insert(
                mission_id,
                MissionState { entity: state.entity, crew: state.crew + brawlers.take(taken) },
            )
            &&& end[mission_id].within_capacity(max_crew)
            &&& accepted(state, joins_of(brawlers), max_crew) == taken
        }),
{
    let state = missions[mission_id];
    let ops = joins_of(brawlers);
    let free = max_crew - state.crew_count();
    law_calls_run_the_operations(missions, mission_id, ops, max_crew);
    law_newcomers_fill_free_slots(state, brawlers, max_crew);
    assert(all_joins(ops));
    law_joins_take_free_slots(state, ops, max_crew);
    lemma_run_keeps_roster_sound(state, ops, max_crew);
    assert forall|n: int| 0 <= n < brawlers.len() implies #[trigger] reply_to_call(
        missions,
        mission_id,
        ops,
        n,
        max_crew,
    ) == if n < free {
        Ok::<(), MissionError>(())
    } else {
        Err::<(), MissionError>(MissionError::CapacityExceeded { max_crew })
    } by {
        assert(reply_to_call(missions, mission_id, ops, n, max_crew) == state.run(
            ops.take(n),
            max_crew,
        ).outcome(ops[n], max_crew));
    }
}

} // verus!
