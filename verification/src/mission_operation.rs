use vstd::prelude::*;
use crate::errors::{MissionError, TransitionRefusal};
use crate::mission_statuses::MissionStatuses;
use crate::missions::MissionEntity;
use crate::model::{after, confirmed, finish_outcome, reply, start_outcome, Operation};
use crate::store::MissionMemoryStore;

verus! {

/// The mission lifecycle engine: it decides whether a mission may change
/// its status and, where it may, has the store write the new status.
pub struct MissionOperationUseCase {
    /// The bound on the size of a roster, fixed at construction.
    pub max_crew: u32,
}

impl MissionOperationUseCase {
    /// An engine for rosters of at most `max_crew` members.
    pub fn new(max_crew: u32) -> (engine: MissionOperationUseCase)
        ensures
            engine.max_crew == max_crew,
    {
        MissionOperationUseCase { max_crew }
    }

    /// Decides `start` from what the store returned: the mission and its
    /// crew count. The rules are checked in the order status, crew count,
    /// chief; the first one broken gives the error.
    pub fn check_start(&self, mission: &MissionEntity, crew_count: u32, chief_id: i32) -> (verdict:
        Result<(), MissionError>)
        ensures
            verdict == start_outcome(
                mission.status,
                mission.chief_id,
                crew_count as int,
                chief_id,
                self.max_crew,
            ),
    {
        if !mission.status.accepts_roster_changes() {
            return Err(
                MissionError::InvalidStateTransition {
                    current: mission.status,
                    requested: MissionStatuses::InProgress,
                    reason: TransitionRefusal::WrongStatus,
                },
            );
        }
        if crew_count == 0 {
            return Err(
                MissionError::InvalidStateTransition {
                    current: mission.status,
                    requested: MissionStatuses::InProgress,
                    reason: TransitionRefusal::NoCrew,
                },
            );
        }
        if crew_count > self.max_crew {
            return Err(
                MissionError::InvalidStateTransition {
                    current: mission.status,
                    requested: MissionStatuses::InProgress,
                    reason: TransitionRefusal::CrewOverLimit { max_crew: self.max_crew },
                },
            );
        }
        if mission.chief_id != chief_id {
            return Err(
                MissionError::Unauthorized {
                    chief_id: mission.chief_id,
                    requested: MissionStatuses::InProgress,
                },
            );
        }
        Ok(())
    }

    fn check_finish(mission: &MissionEntity, chief_id: i32, requested: MissionStatuses) -> (verdict:
        Result<(), MissionError>)
        ensures
            verdict == finish_outcome(mission.status, mission.chief_id, chief_id, requested),
    {
        match mission.status {
            MissionStatuses::InProgress => {},
            _ => {
                return Err(
                    MissionError::InvalidStateTransition {
                        current: mission.status,
                        requested,
                        reason: TransitionRefusal::WrongStatus,
                    },
                );
            },
        }
        if mission.chief_id != chief_id {
            return Err(MissionError::Unauthorized { chief_id: mission.chief_id, requested });
        }
        Ok(())
    }

    /// Decides `complete` from the mission that the store returned: the
    /// status is checked first, then the chief.
    pub fn check_complete(&self, mission: &MissionEntity, chief_id: i32) -> (verdict: Result<
        (),
        MissionError,
    >)
        ensures
            verdict == finish_outcome(
                mission.status,
                mission.chief_id,
                chief_id,
                MissionStatuses::Completed,
            ),
    {
        Self::check_finish(mission, chief_id, MissionStatuses::Completed)
    }

    /// Decides `fail` from the mission that the store returned: the status
    /// is checked first, then the chief.
    pub fn check_fail(&self, mission: &MissionEntity, chief_id: i32) -> (verdict: Result<
        (),
        MissionError,
    >)
        ensures
            verdict == finish_outcome(
                mission.status,
                mission.chief_id,
                chief_id,
                MissionStatuses::Failed,
            ),
    {
        Self::check_finish(mission, chief_id, MissionStatuses::Failed)
    }

    /// Starts the mission `mission_id` on behalf of `chief_id`: reads the
    /// mission and its crew count, decides, and writes `InProgress`. Returns
    /// the mission id as confirmation. On any error the store is unchanged.
    pub fn in_progress(&self, store: &mut MissionMemoryStore, mission_id: i32, chief_id: i32) -> (done:
        Result<i32, MissionError>)
        requires
            old(store).wf(),
        ensures
            final(store).wf(),
            final(store).next_id() == old(store).next_id(),
            done == confirmed(
                reply(old(store)@, mission_id, Operation::Start { actor: chief_id }, self.max_crew),
                mission_id,
            ),
            final(store)@ == after(
                old(store)@,
                mission_id,
                Operation::Start { actor: chief_id },
                self.max_crew,
            ),
    {
        let mission = match store.get_one(mission_id) {
            Ok(mission) => mission,
            Err(e) => {
                return Err(e);
            },
        };
        let crew_count = store.crew_counting(mission_id);
        match self.check_start(&mission, crew_count, chief_id) {
            Ok(()) => {},
            Err(e) => {
                assert(store@.insert(mission_id, store@[mission_id]) =~= store@);
                return Err(e);
            },
        }
        store.set_status(mission_id, chief_id, MissionStatuses::InProgress)
    }

    /// Completes the mission `mission_id` on behalf of `chief_id`: reads the
    /// mission, decides, and writes `Completed`. Returns the mission id as
    /// confirmation. On any error the store is unchanged.
    pub fn to_completed(&self, store: &mut MissionMemoryStore, mission_id: i32, chief_id: i32) -> (done:
        Result<i32, MissionError>)
        requires
            old(store).wf(),
        ensures
            final(store).wf(),
            final(store).next_id() == old(store).next_id(),
            done == confirmed(
                reply(
                    old(store)@,
                    mission_id,
                    Operation::Complete { actor: chief_id },
                    self.max_crew,
                ),
                mission_id,
            ),
            final(store)@ == after(
                old(store)@,
                mission_id,
                Operation::Complete { actor: chief_id },
                self.max_crew,
            ),
    {
        let mission = match store.get_one(mission_id) {
            Ok(mission) => mission,
            Err(e) => {
                return Err(e);
            },
        };
        match self.check_complete(&mission, chief_id) {
            Ok(()) => {},
            Err(e) => {
                assert(store@.insert(mission_id, store@[mission_id]) =~= store@);
                return Err(e);
            },
        }
        store.set_status(mission_id, chief_id, MissionStatuses::Completed)
    }

    /// Fails the mission `mission_id` on behalf of `chief_id`: reads the
    /// mission, decides, and writes `Failed`. Returns the mission id as
    /// confirmation. On any error the store is unchanged.
    pub fn to_failed(&self, store: &mut MissionMemoryStore, mission_id: i32, chief_id: i32) -> (done:
        Result<i32, MissionError>)
        requires
            old(store).wf(),
        ensures
            final(store).wf(),
            final(store).next_id() == old(store).next_id(),
            done == confirmed(
                reply(old(store)@, mission_id, Operation::Fail { actor: chief_id }, self.max_crew),
                mission_id,
            ),
            final(store)@ == after(
                old(store)@,
                mission_id,
                Operation::Fail { actor: chief_id },
                self.max_crew,
            ),
    {
        let mission = match store.get_one(mission_id) {
            Ok(mission) => mission,
            Err(e) => {
                return Err(e);
            },
        };
        match self.check_fail(&mission, chief_id) {
            Ok(()) => {},
            Err(e) => {
                assert(store@.insert(mission_id, store@[mission_id]) =~= store@);
                return Err(e);
            },
        }
        store.set_status(mission_id, chief_id, MissionStatuses::Failed)
    }
}

} // verus!
