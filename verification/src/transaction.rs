use vstd::prelude::*;
use crate::crew_operation::CrewOperationUseCase;
use crate::errors::MissionError;
use crate::mission_operation::MissionOperationUseCase;
use crate::model::{after, perform_all, reply, requests_for, Missions, Operation, Request};
use crate::store::MissionMemoryStore;

verus! {

/// The transaction coordinator: it runs a unit of checked operations so
/// that either all of them take effect or none does. Each operation reads,
/// checks and writes; the coordinator adds that a refusal anywhere in the
/// unit undoes what the earlier operations wrote.
pub struct TransactionCoordinator {
    /// The bound on the size of a roster, fixed at construction.
    pub max_crew: u32,
}

/// Once a prefix of a unit is refused, the whole unit is refused with the
/// same error.
pub proof fn lemma_unit_refusal_is_final(
    missions: Missions,
    work: Seq<Request>,
    n: int,
    max_crew: u32,
)
    requires
        0 <= n <= work.len(),
        perform_all(missions, work.take(n), max_crew) is Err,
    ensures
        perform_all(missions, work, max_crew) == perform_all(missions, work.take(n), max_crew),
    decreases work.len(),
{
    if n == work.len() {
        assert(work.take(n) =~= work);
    } else {
        assert(work.drop_last().take(n) =~= work.take(n));
        lemma_unit_refusal_is_final(missions, work.drop_last(), n, max_crew);
    }
}

/// A unit whose requests all go to one visible mission and are all accepted
/// leaves that mission in the state that the run of its operations gives,
/// and every other mission as it was.
pub proof fn law_unit_runs_the_operations(
    missions: Missions,
    mission_id: i32,
    ops: Seq<Operation>,
    max_crew: u32,
)
    requires
        missions.dom().contains(mission_id),
        perform_all(missions, requests_for(mission_id, ops), max_crew) is Ok,
    ensures
        perform_all(missions, requests_for(mission_id, ops), max_crew) == Ok::<
            Missions,
            MissionError,
        >(missions.insert(mission_id, missions[mission_id].run(ops, max_crew))),
    decreases ops.len(),
{
    let work = requests_for(mission_id, ops);
    if ops.len() == 0 {
        assert(missions.insert(mission_id, missions[mission_id]) =~= missions);
    } else {
        assert(work.drop_last() =~= requests_for(mission_id, ops.drop_last()));
        assert(work.last() == Request { mission_id, op: ops.last() });
        law_unit_runs_the_operations(missions, mission_id, ops.drop_last(), max_crew);
        let reached = missions.insert(
            mission_id,
            missions[mission_id].run(ops.drop_last(), max_crew),
        );
        assert(after(reached, mission_id, ops.last(), max_crew) =~= missions.insert(
            mission_id,
            missions[mission_id].run(ops, max_crew),
        ));
    }
}

impl TransactionCoordinator {
    /// A coordinator for rosters of at most `max_crew` members.
    pub fn new(max_crew: u32) -> (coordinator: TransactionCoordinator)
        ensures
            coordinator.max_crew == max_crew,
    {
        TransactionCoordinator { max_crew }
    }

    /// Performs one request: the lifecycle engine answers `start`,
    /// `complete` and `fail`, the roster manager `join` and `leave`.
    pub fn perform(&self, store: &mut MissionMemoryStore, request: Request) -> (done: Result<
        (),
        MissionError,
    >)
        requires
            old(store).wf(),
        ensures
            final(store).wf(),
            final(store).next_id() == old(store).next_id(),
            done == reply(old(store)@, request.mission_id, request.op, self.max_crew),
            final(store)@ == after(old(store)@, request.mission_id, request.op, self.max_crew),
    {
        match request.op {
            Operation::Start { actor } => {
                let engine = MissionOperationUseCase::new(self.max_crew);
                match engine.in_progress(store, request.mission_id, actor) {
                    Ok(_) => Ok(()),
                    Err(e) => Err(e),
                }
            },
            Operation::Complete { actor } => {
                let engine = MissionOperationUseCase::new(self.max_crew);
                match engine.to_completed(store, request.mission_id, actor) {
                    Ok(_) => Ok(()),
                    Err(e) => Err(e),
                }
            },
            Operation::Fail { actor } => {
                let engine = MissionOperationUseCase::new(self.max_crew);
                match engine.to_failed(store, request.mission_id, actor) {
                    Ok(_) => Ok(()),
                    Err(e) => Err(e),
                }
            },
            Operation::Join { brawler_id } => {
                let manager = CrewOperationUseCase::new(self.max_crew);
                manager.join(store, request.mission_id, brawler_id)
            },
            Operation::Leave { brawler_id } => {
                let manager = CrewOperationUseCase::new(self.max_crew);
                manager.leave(store, request.mission_id, brawler_id)
            },
        }
    }

    /// Runs the unit of work `work` atomically: either every request is
    /// accepted and takes effect, in order, or the first request that is
    /// refused gives the error and the store is as it was before the call.
    pub fn run(&self, store: &mut MissionMemoryStore, work: &Vec<Request>) -> (done: Result<
        (),
        MissionError,
    >)
        requires
            old(store).wf(),
        ensures
            final(store).wf(),
            final(store).next_id() == old(store).next_id(),
            match perform_all(old(store)@, work@, self.max_crew) {
                Ok(reached) => done == Ok::<(), MissionError>(()) && final(store)@ == reached,
                Err(e) => done == Err::<(), MissionError>(e) && final(store)@ == old(store)@,
            },
    {
        let saved = store.snapshot();
        let ghost start = store@;
        let mut i: usize = 0;
        while i < work.len()
            invariant
                i <= work@.len(),
                store.wf(),
                saved.wf(),
                saved@ == start,
                start == old(store)@,
                saved.next_id() == store.next_id(),
                store.next_id() == old(store).next_id(),
                perform_all(start, work@.take(i as int), self.max_crew) == Ok::<
                    Missions,
                    MissionError,
                >(store@),
            decreases work@.len() - i,
        {
            let ghost prefix = work@.take(i as int + 1);
            proof {
                assert(prefix.drop_last() =~= work@.take(i as int));
                assert(prefix.last() == work@[i as int]);
            }
            match self.perform(store, work[i]) {
                Ok(()) => {},
                Err(e) => {
                    proof {
                        assert(perform_all(start, prefix, self.max_crew) == Err::<
                            Missions,
                            MissionError,
                        >(e));
                        lemma_unit_refusal_is_final(start, work@, i as int + 1, self.max_crew);
                    }
                    *store = saved;
                    return Err(e);
                },
            }
            i = i + 1;
        }
        proof {
            assert(work@.take(i as int) =~= work@);
        }
        Ok(())
    }
}

} // verus!
