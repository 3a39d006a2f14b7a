use vstd::prelude::*;
use crate::errors::{MissionError, TransitionRefusal};
use crate::mission_statuses::MissionStatuses;
use crate::missions::{CrewMemberShips, MissionEntity, MissionFilter};

verus! {

/// The default bound on the size of a roster.
pub const MAX_CREW_PER_MISSION: u32 = 4;

/// A visible mission together with its roster, in the order of enrolment.
/// The crew count is the length of the roster and is stored nowhere else.
pub struct MissionState {
    pub entity: MissionEntity,
    pub crew: Seq<i32>,
}

/// What a caller may ask of a mission.
#[derive(Clone, Copy, Debug, PartialEq, Eq, Structural)]
pub enum Operation {
    Start { actor: i32 },
    Complete { actor: i32 },
    Fail { actor: i32 },
    Join { brawler_id: i32 },
    Leave { brawler_id: i32 },
}

/// The verdict on `start`: the status must be `Open` or `Failed`, the roster
/// must hold between one and `max_crew` members, and the actor must be the
/// chief. The first rule broken, in this order, gives the error.
pub open spec fn start_outcome(
    status: MissionStatuses,
    chief_id: i32,
    crew_count: int,
    actor: i32,
    max_crew: u32,
) -> Result<(), MissionError> {
    if !status.is_open_or_failed() {
        Err(
            MissionError::InvalidStateTransition {
                current: status,
                requested: MissionStatuses::InProgress,
                reason: TransitionRefusal::WrongStatus,
            },
        )
    } else if crew_count <= 0 {
        Err(
            MissionError::InvalidStateTransition {
                current: status,
                requested: MissionStatuses::InProgress,
                reason: TransitionRefusal::NoCrew,
            },
        )
    } else if crew_count > max_crew {
        Err(
            MissionError::InvalidStateTransition {
                current: status,
                requested: MissionStatuses::InProgress,
                reason: TransitionRefusal::CrewOverLimit { max_crew },
            },
        )
    } else if actor != chief_id {
        Err(MissionError::Unauthorized { chief_id, requested: MissionStatuses::InProgress })
    } else {
        Ok(())
    }
}

/// The verdict on `complete` and on `fail`, which ask for the status
/// `requested`: the status must be `InProgress` and the actor must be the
/// chief, checked in this order.
pub open spec fn finish_outcome(
    status: MissionStatuses,
    chief_id: i32,
    actor: i32,
    requested: MissionStatuses,
) -> Result<(), MissionError> {
    if status != MissionStatuses::InProgress {
        Err(
            MissionError::InvalidStateTransition {
                current: status,
                requested,
                reason: TransitionRefusal::WrongStatus,
            },
        )
    } else if actor != chief_id {
        Err(MissionError::Unauthorized { chief_id, requested })
    } else {
        Ok(())
    }
}

/// The verdict on `join`: the status must be `Open` or `Failed`, the roster
/// must hold fewer than `max_crew` members, and the brawler must not be
/// enrolled yet, checked in this order.
pub open spec fn join_outcome(
    status: MissionStatuses,
    crew_count: int,
    enrolled: bool,
    max_crew: u32,
) -> Result<(), MissionError> {
    if !status.is_open_or_failed() {
        Err(MissionError::NotJoinable { current: status })
    } else if crew_count >= max_crew {
        Err(MissionError::CapacityExceeded { max_crew })
    } else if enrolled {
        Err(MissionError::DuplicateMembership)
    } else {
        Ok(())
    }
}

/// The verdict on `leave`: the status must be `Open` or `Failed` and the
/// brawler must be enrolled, checked in this order.
pub open spec fn leave_outcome(status: MissionStatuses, enrolled: bool) -> Result<
    (),
    MissionError,
> {
    if !status.is_open_or_failed() {
        Err(MissionError::NotLeavable { current: status })
    } else if !enrolled {
        Err(MissionError::NotAMember)
    } else {
        Ok(())
    }
}

impl MissionState {
    /// The derived crew count.
    pub open spec fn crew_count(self) -> int {
        self.crew.len() as int
    }

    /// Whether `brawler_id` is enrolled.
    pub open spec fn has_member(self, brawler_id: i32) -> bool {
        self.crew.contains(brawler_id)
    }

    /// Nobody is enrolled twice.
    pub open spec fn well_formed(self) -> bool {
        self.crew.no_duplicates()
    }

    /// The roster respects the bound.
    pub open spec fn within_capacity(self, max_crew: u32) -> bool {
        self.crew.len() <= max_crew
    }

    /// The same mission in another status.
    pub open spec fn with_status(self, status: MissionStatuses) -> MissionState {
        MissionState { entity: MissionEntity { status, ..self.entity }, crew: self.crew }
    }

    /// The same mission with `brawler_id` enrolled last.
    pub open spec fn enroll(self, brawler_id: i32) -> MissionState {
        MissionState { entity: self.entity, crew: self.crew.push(brawler_id) }
    }

    /// The same mission without `brawler_id`; the others keep their order.
    pub open spec fn dismiss(self, brawler_id: i32) -> MissionState {
        if self.crew.contains(brawler_id) {
            MissionState {
                entity: self.entity,
                crew: self.crew.remove(self.crew.index_of(brawler_id)),
            }
        } else {
            self
        }
    }

    /// The verdict on `op` in this state.
    pub open spec fn outcome(self, op: Operation, max_crew: u32) -> Result<(), MissionError> {
        match op {
            Operation::Start { actor } => start_outcome(
                self.entity.status,
                self.entity.chief_id,
                self.crew_count(),
                actor,
                max_crew,
            ),
            Operation::Complete { actor } => finish_outcome(
                self.entity.status,
                self.entity.chief_id,
                actor,
                MissionStatuses::Completed,
            ),
            Operation::Fail { actor } => finish_outcome(
                self.entity.status,
                self.entity.chief_id,
                actor,
                MissionStatuses::Failed,
            ),
            Operation::Join { brawler_id } => join_outcome(
                self.entity.status,
                self.crew_count(),
                self.has_member(brawler_id),
                max_crew,
            ),
            Operation::Leave { brawler_id } => leave_outcome(
                self.entity.status,
                self.has_member(brawler_id),
            ),
        }
    }

    /// The state that `op` leaves behind: the effect of the operation where
    /// the verdict is `Ok`, the state itself where it is an error.
    pub open spec fn step(self, op: Operation, max_crew: u32) -> MissionState {
        if self.outcome(op, max_crew) is Err {
            self
        } else {
            match op {
                Operation::Start { .. } => self.with_status(MissionStatuses::InProgress),
                Operation::Complete { .. } => self.with_status(MissionStatuses::Completed),
                Operation::Fail { .. } => self.with_status(MissionStatuses::Failed),
                Operation::Join { brawler_id } => self.enroll(brawler_id),
                Operation::Leave { brawler_id } => self.dismiss(brawler_id),
            }
        }
    }

    /// The state after the operations of `ops`, applied first to last.
    pub open spec fn run(self, ops: Seq<Operation>, max_crew: u32) -> MissionState
        decreases ops.len(),
    {
        if ops.len() == 0 {
            self
        } else {
            self.run(ops.drop_last(), max_crew).step(ops.last(), max_crew)
        }
    }
}

/// The visible missions of a store, by id.
pub type Missions = Map<i32, MissionState>;

/// The answer to `op` on mission `mission_id`: `NotFound` where no such
/// mission is visible, the verdict of the mission's state otherwise.
pub open spec fn reply(missions: Missions, mission_id: i32, op: Operation, max_crew: u32) -> Result<
    (),
    MissionError,
> {
    if missions.dom().contains(mission_id) {
        missions[mission_id].outcome(op, max_crew)
    } else {
        Err(MissionError::NotFound)
    }
}

/// The missions after `op` on mission `mission_id`: only that mission
/// changes, and only where the answer is `Ok`.
pub open spec fn after(missions: Missions, mission_id: i32, op: Operation, max_crew: u32) -> Missions {
    if missions.dom().contains(mission_id) {
        missions.insert(mission_id, missions[mission_id].step(op, max_crew))
    } else {
        missions
    }
}

/// The missions after the calls `ops` on mission `mission_id`, made one
/// after another: a call that is refused changes nothing, and the next call
/// is made all the same.
pub open spec fn after_calls(
    missions: Missions,
    mission_id: i32,
    ops: Seq<Operation>,
    max_crew: u32,
) -> Missions
    decreases ops.len(),
{
    if ops.len() == 0 {
        missions
    } else {
        after(
            after_calls(missions, mission_id, ops.drop_last(), max_crew),
            mission_id,
            ops.last(),
            max_crew,
        )
    }
}

/// The answer to call number `n` of the calls `ops` on mission
/// `mission_id`, made one after another.
pub open spec fn reply_to_call(
    missions: Missions,
    mission_id: i32,
    ops: Seq<Operation>,
    n: int,
    max_crew: u32,
) -> Result<(), MissionError> {
    reply(after_calls(missions, mission_id, ops.take(n), max_crew), mission_id, ops[n], max_crew)
}

/// Whether a listing with `filter` asks for the mission `mission_id`: it is
/// visible and in a status that the filter admits.
pub open spec fn wanted(missions: Missions, filter: MissionFilter, mission_id: i32) -> bool {
    missions.dom().contains(mission_id) && filter.admits(missions[mission_id].entity.status)
}

/// One write against the store, as a unit of work lists them.
#[derive(Clone, Copy, Debug, PartialEq, Eq, Structural)]
pub enum StoreWrite {
    /// Add a roster row.
    InsertMember { row: CrewMemberShips },
    /// Delete a roster row, if it is there.
    DeleteMember { row: CrewMemberShips },
    /// Set the status of the mission `mission_id` whose chief is `chief_id`.
    SetStatus { mission_id: i32, chief_id: i32, status: MissionStatuses },
}

/// Whether the store accepts the write `write` on `missions`.
/// A row is refused where its mission is not visible, where it is there
/// already, and where the roster cannot be counted any more. A delete is
/// never refused. A status is refused where no visible mission has that id
/// and that chief.
pub open spec fn write_reply(missions: Missions, write: StoreWrite) -> Result<(), MissionError> {
    match write {
        StoreWrite::InsertMember { row } => {
            if !missions.dom().contains(row.mission_id) {
                Err(MissionError::NotFound)
            } else if missions[row.mission_id].has_member(row.brawler_id) {
                Err(MissionError::DuplicateMembership)
            } else if missions[row.mission_id].crew.len() >= u32::MAX {
                Err(MissionError::PersistenceFailure)
            } else {
                Ok(())
            }
        },
        StoreWrite::DeleteMember { .. } => Ok(()),
        StoreWrite::SetStatus { mission_id, chief_id, .. } => {
            if missions.dom().contains(mission_id) && missions[mission_id].entity.chief_id
                == chief_id {
                Ok(())
            } else {
                Err(MissionError::NotFound)
            }
        },
    }
}

/// The missions after the write `write`, where the store accepts it.
pub open spec fn write_effect(missions: Missions, write: StoreWrite) -> Missions {
    match write {
        StoreWrite::InsertMember { row } => missions.insert(
            row.mission_id,
            missions[row.mission_id].enroll(row.brawler_id),
        ),
        StoreWrite::DeleteMember { row } => {
            if missions.dom().contains(row.mission_id) {
                missions.insert(row.mission_id, missions[row.mission_id].dismiss(row.brawler_id))
            } else {
                missions
            }
        },
        StoreWrite::SetStatus { mission_id, status, .. } => missions.insert(
            mission_id,
            missions[mission_id].with_status(status),
        ),
    }
}

/// A unit of work, write by write: the missions after all of them where the
/// store accepts each in its turn, else the error of the first one refused.
pub open spec fn apply_writes(missions: Missions, work: Seq<StoreWrite>) -> Result<
    Missions,
    MissionError,
>
    decreases work.len(),
{
    if work.len() == 0 {
        Ok(missions)
    } else {
        match apply_writes(missions, work.drop_last()) {
            Err(e) => Err(e),
            Ok(reached) => match write_reply(reached, work.last()) {
                Err(e) => Err(e),
                Ok(()) => Ok(write_effect(reached, work.last())),
            },
        }
    }
}

/// The token that confirms a transition: the id of the mission.
pub open spec fn confirmed(verdict: Result<(), MissionError>, mission_id: i32) -> Result<
    i32,
    MissionError,
> {
    match verdict {
        Ok(()) => Ok(mission_id),
        Err(e) => Err(e),
    }
}

/// One operation asked of one mission.
#[derive(Clone, Copy, Debug, PartialEq, Eq, Structural)]
pub struct Request {
    pub mission_id: i32,
    pub op: Operation,
}

/// A unit of checked operations, request by request: the missions after all
/// of them where each is accepted in its turn, else the error of the first
/// one refused.
pub open spec fn perform_all(missions: Missions, work: Seq<Request>, max_crew: u32) -> Result<
    Missions,
    MissionError,
>
    decreases work.len(),
{
    if work.len() == 0 {
        Ok(missions)
    } else {
        match perform_all(missions, work.drop_last(), max_crew) {
            Err(e) => Err(e),
            Ok(reached) => match reply(
                reached,
                work.last().mission_id,
                work.last().op,
                max_crew,
            ) {
                Err(e) => Err(e),
                Ok(()) => Ok(after(reached, work.last().mission_id, work.last().op, max_crew)),
            },
        }
    }
}

/// The requests that ask the operations of `ops` of the mission
/// `mission_id`, in that order.
pub open spec fn requests_for(mission_id: i32, ops: Seq<Operation>) -> Seq<Request> {
    Seq::new(ops.len(), |i: int| Request { mission_id, op: ops[i] })
}

} // verus!
