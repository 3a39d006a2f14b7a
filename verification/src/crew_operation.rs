use vstd::prelude::*;
use crate::errors::MissionError;
use crate::missions::{CrewMemberShips, MissionEntity};
use crate::model::{
    after, apply_writes, join_outcome, leave_outcome, reply, write_effect, write_reply, MissionState,
    Operation, StoreWrite,
};
use crate::store::MissionMemoryStore;

verus! {

/// The crew roster manager: it decides whether a brawler may join or leave
/// a mission and, where they may, has the store write or delete the row.
pub struct CrewOperationUseCase {
    /// The bound on the size of a roster, fixed at construction.
    pub max_crew: u32,
}

/// Enrolling a newcomer and dismissing them again gives the roster back.
pub proof fn lemma_enroll_then_dismiss(state: MissionState, brawler_id: i32)
    requires
        !state.has_member(brawler_id),
    ensures
        state.enroll(brawler_id).dismiss(brawler_id) == state,
{
    let grown = state.crew.push(brawler_id);
    let last = state.crew.len() as int;
    assert(grown[last] == brawler_id);
    assert(grown.contains(brawler_id));
    let at = grown.index_of(brawler_id);
    assert(0 <= at < grown.len() && grown[at] == brawler_id);
    if at < last {
        assert(state.crew[at] == brawler_id);
        assert(state.crew.contains(brawler_id));
    }
    assert(grown.remove(at) =~= state.crew);
}

impl CrewOperationUseCase {
    /// A manager for rosters of at most `max_crew` members.
    pub fn new(max_crew: u32) -> (manager: CrewOperationUseCase)
        ensures
            manager.max_crew == max_crew,
    {
        CrewOperationUseCase { max_crew }
    }

    /// Decides `join` from what the store returned: the mission, its crew
    /// count, and whether the brawler is enrolled already. The rules are
    /// checked in the order status, capacity, membership.
    pub fn check_join(&self, mission: &MissionEntity, crew_count: u32, enrolled: bool) -> (verdict:
        Result<(), MissionError>)
        ensures
            verdict == join_outcome(mission.status, crew_count as int, enrolled, self.max_crew),
    {
        if !mission.status.accepts_roster_changes() {
            return Err(MissionError::NotJoinable { current: mission.status });
        }
        if crew_count >= self.max_crew {
            return Err(MissionError::CapacityExceeded { max_crew: self.max_crew });
        }
        if enrolled {
            return Err(MissionError::DuplicateMembership);
        }
        Ok(())
    }

    /// Decides `leave` from what the store returned: the mission and
    /// whether the brawler is enrolled. The status is checked first.
    pub fn check_leave(&self, mission: &MissionEntity, enrolled: bool) -> (verdict: Result<
        (),
        MissionError,
    >)
        ensures
            verdict == leave_outcome(mission.status, enrolled),
    {
        if !mission.status.accepts_roster_changes() {
            return Err(MissionError::NotLeavable { current: mission.status });
        }
        if !enrolled {
            return Err(MissionError::NotAMember);
        }
        Ok(())
    }

    /// Enrols `brawler_id` in the mission `mission_id`. The count is read,
    /// checked against the bound and the row is written under one exclusive
    /// borrow of the store, so no other join can come between the check and
    /// the write. On any error the store is unchanged.
    pub fn join(&self, store: &mut MissionMemoryStore, mission_id: i32, brawler_id: i32) -> (done:
        Result<(), MissionError>)
        requires
            old(store).wf(),
        ensures
            final(store).wf(),
            final(store).next_id() == old(store).next_id(),
            done == reply(old(store)@, mission_id, Operation::Join { brawler_id }, self.max_crew),
            final(store)@ == after(
                old(store)@,
                mission_id,
                Operation::Join { brawler_id },
                self.max_crew,
            ),
    {
        let mission = match store.get_one(mission_id) {
            Ok(mission) => mission,
            Err(e) => {
                return Err(e);
            },
        };
        let crew_count = store.crew_counting(mission_id);
        let enrolled = store.is_member(mission_id, brawler_id);
        match self.check_join(&mission, crew_count, enrolled) {
            Ok(()) => {},
            Err(e) => {
                assert(store@.insert(mission_id, store@[mission_id]) =~= store@);
                return Err(e);
            },
        }
        store.insert_membership(CrewMemberShips { mission_id, brawler_id })
    }

    /// Takes `brawler_id` off the roster of the mission `mission_id`. A
    /// brawler who is not enrolled gets `NotAMember`. On any error the store
    /// is unchanged.
    pub fn leave(&self, store: &mut MissionMemoryStore, mission_id: i32, brawler_id: i32) -> (done:
        Result<(), MissionError>)
        requires
            old(store).wf(),
        ensures
            final(store).wf(),
            final(store).next_id() == old(store).next_id(),
            done == reply(old(store)@, mission_id, Operation::Leave { brawler_id }, self.max_crew),
            final(store)@ == after(
                old(store)@,
                mission_id,
                Operation::Leave { brawler_id },
                self.max_crew,
            ),
    {
        let mission = match store.get_one(mission_id) {
            Ok(mission) => mission,
            Err(e) => {
                return Err(e);
            },
        };
        let enrolled = store.is_member(mission_id, brawler_id);
        match self.check_leave(&mission, enrolled) {
            Ok(()) => {},
            Err(e) => {
                assert(store@.insert(mission_id, store@[mission_id]) =~= store@);
                return Err(e);
            },
        }
        store.delete_membership(CrewMemberShips { mission_id, brawler_id });
        Ok(())
    }

    /// Writes the roster row and deletes it again as one unit of work. The
    /// store is the same afterwards whatever happens; the result says whether
    /// the store accepted the row.
    pub fn insert_and_delete_transaction(
        &self,
        store: &mut MissionMemoryStore,
        mission_id: i32,
        brawler_id: i32,
    ) -> (done: Result<(), MissionError>)
        requires
            old(store).wf(),
        ensures
            final(store).wf(),
            final(store).next_id() == old(store).next_id(),
            done == write_reply(
                old(store)@,
                StoreWrite::InsertMember { row: CrewMemberShips { mission_id, brawler_id } },
            ),
            final(store)@ == old(store)@,
    {
        let row = CrewMemberShips { mission_id, brawler_id };
        let mut work: Vec<StoreWrite> = Vec::new();
        work.push(StoreWrite::InsertMember { row });
        work.push(StoreWrite::DeleteMember { row });
        proof {
            let missions = store@;
            let insert = StoreWrite::InsertMember { row };
            let delete = StoreWrite::DeleteMember { row };
            let first = work@.drop_last();
            assert(first.len() == 1 && first.last() == insert);
            assert(first.drop_last().len() == 0);
            assert(work@.last() == delete);
            assert(apply_writes(missions, first.drop_last()) == Ok::<_, MissionError>(missions));
            if write_reply(missions, insert) is Ok {
                let grown = write_effect(missions, insert);
                assert(apply_writes(missions, first) == Ok::<_, MissionError>(grown));
                lemma_enroll_then_dismiss(missions[mission_id], brawler_id);
                assert(write_effect(grown, delete) =~= missions);
                assert(apply_writes(missions, work@) == Ok::<_, MissionError>(missions));
            } else {
                assert(apply_writes(missions, first) is Err);
                assert(apply_writes(missions, work@) == Err::<
                    Map<i32, MissionState>,
                    MissionError,
                >(write_reply(missions, insert)->Err_0));
            }
        }
        store.transaction(&work)
    }
}

} // verus!
