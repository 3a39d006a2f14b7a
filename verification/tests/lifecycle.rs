use mission_crew::crew_operation::CrewOperationUseCase;
use mission_crew::errors::{MissionError, TransitionRefusal};
use mission_crew::mission_operation::MissionOperationUseCase;
use mission_crew::mission_statuses::MissionStatuses;
use mission_crew::missions::AddMissionModel;
use mission_crew::store::MissionMemoryStore;

const MAX: u32 = 4;

fn open_mission(store: &mut MissionMemoryStore, chief: i32) -> i32 {
    let model = AddMissionModel { name: "Raid".to_string(), description: None };
    store.add(model.to_entity(chief), 1_700_000_000).unwrap()
}

fn status_of(store: &MissionMemoryStore, id: i32) -> MissionStatuses {
    store.get_one(id).unwrap().status
}

#[test]
fn start_without_crew_is_an_invalid_transition() {
    let mut store = MissionMemoryStore::new();
    let m1 = open_mission(&mut store, 7);
    let engine = MissionOperationUseCase::new(MAX);
    assert_eq!(
        engine.in_progress(&mut store, m1, 7),
        Err(MissionError::InvalidStateTransition {
            current: MissionStatuses::Open,
            requested: MissionStatuses::InProgress,
            reason: TransitionRefusal::NoCrew,
        })
    );
    assert_eq!(status_of(&store, m1), MissionStatuses::Open);
}

#[test]
fn start_by_a_stranger_is_unauthorized() {
    let mut store = MissionMemoryStore::new();
    let m1 = open_mission(&mut store, 7);
    let roster = CrewOperationUseCase::new(MAX);
    roster.join(&mut store, m1, 42).unwrap();
    let engine = MissionOperationUseCase::new(MAX);
    assert_eq!(engine.in_progress(&mut store, m1, 9), Err(MissionError::Unauthorized { chief_id: 7, requested: MissionStatuses::InProgress }));
    assert_eq!(status_of(&store, m1), MissionStatuses::Open);
    assert_eq!(store.crew_counting(m1), 1);
}

#[test]
fn started_mission_takes_no_newcomer() {
    let mut store = MissionMemoryStore::new();
    let m1 = open_mission(&mut store, 7);
    let roster = CrewOperationUseCase::new(MAX);
    roster.join(&mut store, m1, 1).unwrap();
    let engine = MissionOperationUseCase::new(MAX);
    assert_eq!(engine.in_progress(&mut store, m1, 7), Ok(m1));
    assert_eq!(status_of(&store, m1), MissionStatuses::InProgress);
    assert_eq!(
        roster.join(&mut store, m1, 42),
        Err(MissionError::NotJoinable { current: MissionStatuses::InProgress })
    );
    assert_eq!(store.crew_counting(m1), 1);
}

#[test]
fn completed_mission_cannot_fail() {
    let mut store = MissionMemoryStore::new();
    let m1 = open_mission(&mut store, 7);
    let roster = CrewOperationUseCase::new(MAX);
    roster.join(&mut store, m1, 1).unwrap();
    let engine = MissionOperationUseCase::new(MAX);
    engine.in_progress(&mut store, m1, 7).unwrap();
    assert_eq!(engine.to_completed(&mut store, m1, 7), Ok(m1));
    assert_eq!(status_of(&store, m1), MissionStatuses::Completed);
    assert_eq!(
        engine.to_failed(&mut store, m1, 7),
        Err(MissionError::InvalidStateTransition {
            current: MissionStatuses::Completed,
            requested: MissionStatuses::Failed,
            reason: TransitionRefusal::WrongStatus,
        })
    );
    assert_eq!(status_of(&store, m1), MissionStatuses::Completed);
}

#[test]
fn completing_twice_fails_the_second_time() {
    let mut store = MissionMemoryStore::new();
    let m1 = open_mission(&mut store, 7);
    let roster = CrewOperationUseCase::new(MAX);
    roster.join(&mut store, m1, 1).unwrap();
    let engine = MissionOperationUseCase::new(MAX);
    engine.in_progress(&mut store, m1, 7).unwrap();
    assert_eq!(engine.to_completed(&mut store, m1, 7), Ok(m1));
    assert_eq!(
        engine.to_completed(&mut store, m1, 7),
        Err(MissionError::InvalidStateTransition {
            current: MissionStatuses::Completed,
            requested: MissionStatuses::Completed,
            reason: TransitionRefusal::WrongStatus,
        })
    );
}

#[test]
fn completed_mission_refuses_every_operation() {
    let mut store = MissionMemoryStore::new();
    let m1 = open_mission(&mut store, 7);
    let roster = CrewOperationUseCase::new(MAX);
    roster.join(&mut store, m1, 1).unwrap();
    let engine = MissionOperationUseCase::new(MAX);
    engine.in_progress(&mut store, m1, 7).unwrap();
    engine.to_completed(&mut store, m1, 7).unwrap();
    assert!(engine.in_progress(&mut store, m1, 7).is_err());
    assert!(engine.to_completed(&mut store, m1, 7).is_err());
    assert!(engine.to_failed(&mut store, m1, 7).is_err());
    assert_eq!(
        roster.join(&mut store, m1, 2),
        Err(MissionError::NotJoinable { current: MissionStatuses::Completed })
    );
    assert_eq!(
        roster.leave(&mut store, m1, 1),
        Err(MissionError::NotLeavable { current: MissionStatuses::Completed })
    );
    assert_eq!(status_of(&store, m1), MissionStatuses::Completed);
    assert_eq!(store.get_crew(m1).unwrap(), vec![1]);
}

#[test]
fn failed_mission_can_be_started_again() {
    let mut store = MissionMemoryStore::new();
    let m1 = open_mission(&mut store, 7);
    let roster = CrewOperationUseCase::new(MAX);
    roster.join(&mut store, m1, 1).unwrap();
    let engine = MissionOperationUseCase::new(MAX);
    engine.in_progress(&mut store, m1, 7).unwrap();
    assert_eq!(engine.to_failed(&mut store, m1, 7), Ok(m1));
    assert_eq!(status_of(&store, m1), MissionStatuses::Failed);
    assert_eq!(roster.join(&mut store, m1, 2), Ok(()));
    assert_eq!(roster.leave(&mut store, m1, 1), Ok(()));
    assert_eq!(engine.in_progress(&mut store, m1, 7), Ok(m1));
    assert_eq!(status_of(&store, m1), MissionStatuses::InProgress);
}

#[test]
fn status_is_checked_before_the_chief() {
    let mut store = MissionMemoryStore::new();
    let m1 = open_mission(&mut store, 7);
    let engine = MissionOperationUseCase::new(MAX);
    assert_eq!(
        engine.to_completed(&mut store, m1, 9),
        Err(MissionError::InvalidStateTransition {
            current: MissionStatuses::Open,
            requested: MissionStatuses::Completed,
            reason: TransitionRefusal::WrongStatus,
        })
    );
    assert_eq!(
        engine.in_progress(&mut store, m1, 9),
        Err(MissionError::InvalidStateTransition {
            current: MissionStatuses::Open,
            requested: MissionStatuses::InProgress,
            reason: TransitionRefusal::NoCrew,
        })
    );
}

#[test]
fn strangers_cannot_complete_or_fail() {
    let mut store = MissionMemoryStore::new();
    let m1 = open_mission(&mut store, 7);
    let roster = CrewOperationUseCase::new(MAX);
    roster.join(&mut store, m1, 1).unwrap();
    let engine = MissionOperationUseCase::new(MAX);
    engine.in_progress(&mut store, m1, 7).unwrap();
    assert_eq!(
        engine.to_completed(&mut store, m1, 8),
        Err(MissionError::Unauthorized { chief_id: 7, requested: MissionStatuses::Completed })
    );
    assert_eq!(
        engine.to_failed(&mut store, m1, 8),
        Err(MissionError::Unauthorized { chief_id: 7, requested: MissionStatuses::Failed })
    );
    assert_eq!(status_of(&store, m1), MissionStatuses::InProgress);
}

#[test]
fn start_needs_the_crew_within_the_bound() {
    let mut store = MissionMemoryStore::new();
    let m1 = open_mission(&mut store, 7);
    let wide = CrewOperationUseCase::new(3);
    wide.join(&mut store, m1, 1).unwrap();
    wide.join(&mut store, m1, 2).unwrap();
    wide.join(&mut store, m1, 3).unwrap();
    let narrow = MissionOperationUseCase::new(2);
    assert_eq!(
        narrow.in_progress(&mut store, m1, 7),
        Err(MissionError::InvalidStateTransition {
            current: MissionStatuses::Open,
            requested: MissionStatuses::InProgress,
            reason: TransitionRefusal::CrewOverLimit { max_crew: 2 },
        })
    );
    let exact = MissionOperationUseCase::new(3);
    assert_eq!(exact.in_progress(&mut store, m1, 7), Ok(m1));
}

#[test]
fn a_bound_of_zero_lets_no_mission_start() {
    let mut store = MissionMemoryStore::new();
    let m1 = open_mission(&mut store, 7);
    let engine = MissionOperationUseCase::new(0);
    assert!(engine.in_progress(&mut store, m1, 7).is_err());
    let roster = CrewOperationUseCase::new(0);
    assert_eq!(roster.join(&mut store, m1, 1), Err(MissionError::CapacityExceeded { max_crew: 0 }));
}

#[test]
fn unknown_mission_is_not_found() {
    let mut store = MissionMemoryStore::new();
    let engine = MissionOperationUseCase::new(MAX);
    let roster = CrewOperationUseCase::new(MAX);
    assert_eq!(engine.in_progress(&mut store, 5, 7), Err(MissionError::NotFound));
    assert_eq!(engine.to_completed(&mut store, 5, 7), Err(MissionError::NotFound));
    assert_eq!(engine.to_failed(&mut store, 5, 7), Err(MissionError::NotFound));
    assert_eq!(roster.join(&mut store, 5, 7), Err(MissionError::NotFound));
    assert_eq!(roster.leave(&mut store, 5, 7), Err(MissionError::NotFound));
}

#[test]
fn decisions_follow_what_the_store_returned() {
    let mut store = MissionMemoryStore::new();
    let m1 = open_mission(&mut store, 7);
    let mission = store.get_one(m1).unwrap();
    let engine = MissionOperationUseCase::new(MAX);
    assert_eq!(engine.check_start(&mission, 1, 7), Ok(()));
    assert_eq!(engine.check_start(&mission, 4, 7), Ok(()));
    assert_eq!(
        engine.check_start(&mission, 5, 7),
        Err(MissionError::InvalidStateTransition {
            current: MissionStatuses::Open,
            requested: MissionStatuses::InProgress,
            reason: TransitionRefusal::CrewOverLimit { max_crew: 4 },
        })
    );
    assert_eq!(engine.check_start(&mission, 1, 8), Err(MissionError::Unauthorized { chief_id: 7, requested: MissionStatuses::InProgress }));
    assert_eq!(
        engine.check_complete(&mission, 7),
        Err(MissionError::InvalidStateTransition {
            current: MissionStatuses::Open,
            requested: MissionStatuses::Completed,
            reason: TransitionRefusal::WrongStatus,
        })
    );
    assert_eq!(
        engine.check_fail(&mission, 7),
        Err(MissionError::InvalidStateTransition {
            current: MissionStatuses::Open,
            requested: MissionStatuses::Failed,
            reason: TransitionRefusal::WrongStatus,
        })
    );
    let roster = CrewOperationUseCase::new(MAX);
    assert_eq!(roster.check_join(&mission, 3, false), Ok(()));
    assert_eq!(roster.check_join(&mission, 4, false), Err(MissionError::CapacityExceeded { max_crew: 4 }));
    assert_eq!(roster.check_join(&mission, 4, true), Err(MissionError::CapacityExceeded { max_crew: 4 }));
    assert_eq!(roster.check_join(&mission, 3, true), Err(MissionError::DuplicateMembership));
    assert_eq!(roster.check_leave(&mission, true), Ok(()));
    assert_eq!(roster.check_leave(&mission, false), Err(MissionError::NotAMember));
}
