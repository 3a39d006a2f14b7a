use mission_crew::errors::{MissionError, TransitionRefusal};
use mission_crew::mission_statuses::MissionStatuses;
use mission_crew::missions::AddMissionModel;
use mission_crew::model::{Operation, Request};
use mission_crew::store::MissionMemoryStore;
use mission_crew::transaction::TransactionCoordinator;

fn store_with_mission(chief: i32) -> (MissionMemoryStore, i32) {
    let mut store = MissionMemoryStore::new();
    let model = AddMissionModel { name: "Unit".to_string(), description: None };
    let id = store.add(model.to_entity(chief), 5).unwrap();
    (store, id)
}

fn ask(mission_id: i32, op: Operation) -> Request {
    Request { mission_id, op }
}

#[test]
fn unit_of_operations_commits_when_all_are_accepted() {
    let (mut store, m) = store_with_mission(7);
    let coordinator = TransactionCoordinator::new(4);
    let work = vec![
        ask(m, Operation::Join { brawler_id: 1 }),
        ask(m, Operation::Join { brawler_id: 2 }),
        ask(m, Operation::Leave { brawler_id: 1 }),
        ask(m, Operation::Start { actor: 7 }),
        ask(m, Operation::Fail { actor: 7 }),
        ask(m, Operation::Join { brawler_id: 3 }),
        ask(m, Operation::Start { actor: 7 }),
        ask(m, Operation::Complete { actor: 7 }),
    ];
    assert_eq!(coordinator.run(&mut store, &work), Ok(()));
    assert_eq!(store.get_one(m).unwrap().status, MissionStatuses::Completed);
    assert_eq!(store.get_crew(m).unwrap(), vec![2, 3]);
}

#[test]
fn unit_of_operations_rolls_back_when_one_is_refused() {
    let (mut store, m) = store_with_mission(7);
    let coordinator = TransactionCoordinator::new(2);
    assert_eq!(coordinator.perform(&mut store, ask(m, Operation::Join { brawler_id: 1 })), Ok(()));
    let work = vec![
        ask(m, Operation::Join { brawler_id: 2 }),
        ask(m, Operation::Join { brawler_id: 3 }),
        ask(m, Operation::Start { actor: 7 }),
    ];
    assert_eq!(coordinator.run(&mut store, &work), Err(MissionError::CapacityExceeded { max_crew: 2 }));
    assert_eq!(store.get_crew(m).unwrap(), vec![1]);
    assert_eq!(store.get_one(m).unwrap().status, MissionStatuses::Open);
    let late = vec![ask(m, Operation::Start { actor: 7 }), ask(m, Operation::Leave { brawler_id: 1 })];
    assert_eq!(
        coordinator.run(&mut store, &late),
        Err(MissionError::NotLeavable { current: MissionStatuses::InProgress })
    );
    assert_eq!(store.get_one(m).unwrap().status, MissionStatuses::Open);
    assert_eq!(coordinator.run(&mut store, &Vec::new()), Ok(()));
}

#[test]
fn single_requests_go_to_the_engine_or_the_manager() {
    let (mut store, m) = store_with_mission(7);
    let coordinator = TransactionCoordinator::new(4);
    assert_eq!(
        coordinator.perform(&mut store, ask(m, Operation::Start { actor: 7 })),
        Err(MissionError::InvalidStateTransition {
            current: MissionStatuses::Open,
            requested: MissionStatuses::InProgress,
            reason: TransitionRefusal::NoCrew,
        })
    );
    assert_eq!(coordinator.perform(&mut store, ask(m, Operation::Leave { brawler_id: 1 })), Err(MissionError::NotAMember));
    assert_eq!(coordinator.perform(&mut store, ask(m, Operation::Join { brawler_id: 1 })), Ok(()));
    assert_eq!(coordinator.perform(&mut store, ask(m, Operation::Start { actor: 7 })), Ok(()));
    assert_eq!(
        coordinator.perform(&mut store, ask(m, Operation::Complete { actor: 8 })),
        Err(MissionError::Unauthorized { chief_id: 7, requested: MissionStatuses::Completed })
    );
    assert_eq!(coordinator.perform(&mut store, ask(m, Operation::Fail { actor: 7 })), Ok(()));
    assert_eq!(store.get_one(m).unwrap().status, MissionStatuses::Failed);
    assert_eq!(coordinator.perform(&mut store, ask(m + 1, Operation::Fail { actor: 7 })), Err(MissionError::NotFound));
}

#[test]
fn snapshot_is_a_copy_that_later_writes_do_not_touch() {
    let (mut store, m) = store_with_mission(7);
    let coordinator = TransactionCoordinator::new(4);
    coordinator.perform(&mut store, ask(m, Operation::Join { brawler_id: 1 })).unwrap();
    let saved = store.snapshot();
    coordinator.perform(&mut store, ask(m, Operation::Join { brawler_id: 2 })).unwrap();
    coordinator.perform(&mut store, ask(m, Operation::Start { actor: 7 })).unwrap();
    assert_eq!(saved.get_crew(m).unwrap(), vec![1]);
    assert_eq!(saved.get_one(m).unwrap().status, MissionStatuses::Open);
    assert_eq!(saved.get_one(m).unwrap().name, "Unit");
    assert_eq!(store.get_crew(m).unwrap(), vec![1, 2]);
}
