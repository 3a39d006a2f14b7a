use mission_crew::errors::MissionError;
use mission_crew::mission_statuses::MissionStatuses;
use mission_crew::mission_viewing::MissionViewingUseCase;
use mission_crew::missions::{AddMissionModel, CrewMemberShips, EditMissionModel, MissionFilter};
use mission_crew::store::MissionMemoryStore;

#[test]
fn missions_get_ids_in_order_and_start_open() {
    let mut store = MissionMemoryStore::new();
    let first = AddMissionModel { name: "One".to_string(), description: None };
    let second = AddMissionModel { name: "Two".to_string(), description: Some("second".to_string()) };
    assert_eq!(store.add(first.to_entity(7), 10), Ok(1));
    assert_eq!(store.add(second.to_entity(8), 20), Ok(2));
    let mission = store.get_one(2).unwrap();
    assert_eq!(mission.id, 2);
    assert_eq!(mission.name, "Two");
    assert_eq!(mission.description, Some("second".to_string()));
    assert_eq!(mission.status, MissionStatuses::Open);
    assert_eq!(mission.chief_id, 8);
    assert_eq!(mission.created_at, 20);
    assert_eq!(mission.updated_at, 20);
    assert_eq!(mission.deleted_at, None);
    assert_eq!(store.crew_counting(2), 0);
}

#[test]
fn removed_mission_is_invisible() {
    let mut store = MissionMemoryStore::new();
    let model = AddMissionModel { name: "Gone".to_string(), description: None };
    let id = store.add(model.to_entity(7), 10).unwrap();
    store.insert_membership(CrewMemberShips { mission_id: id, brawler_id: 1 }).unwrap();
    assert!(store.remove(id, 30));
    assert!(!store.remove(id, 31));
    assert!(matches!(store.get_one(id), Err(MissionError::NotFound)));
    assert_eq!(store.crew_counting(id), 0);
    assert!(!store.is_member(id, 1));
    assert_eq!(store.get_crew(id), Err(MissionError::NotFound));
    assert_eq!(store.set_status(id, 7, MissionStatuses::InProgress), Err(MissionError::NotFound));
    assert_eq!(
        store.insert_membership(CrewMemberShips { mission_id: id, brawler_id: 2 }),
        Err(MissionError::NotFound)
    );
    let next = AddMissionModel { name: "Next".to_string(), description: None };
    assert_eq!(store.add(next.to_entity(7), 40), Ok(id + 1));
}

#[test]
fn only_open_missions_can_be_removed() {
    let mut store = MissionMemoryStore::new();
    let model = AddMissionModel { name: "Busy".to_string(), description: None };
    let id = store.add(model.to_entity(7), 10).unwrap();
    store.set_status(id, 7, MissionStatuses::InProgress).unwrap();
    assert!(!store.remove(id, 30));
    assert_eq!(store.get_one(id).unwrap().status, MissionStatuses::InProgress);
}

#[test]
fn status_is_set_only_for_the_chief() {
    let mut store = MissionMemoryStore::new();
    let model = AddMissionModel { name: "Mine".to_string(), description: None };
    let id = store.add(model.to_entity(7), 10).unwrap();
    assert_eq!(store.set_status(id, 8, MissionStatuses::Failed), Err(MissionError::NotFound));
    assert_eq!(store.get_one(id).unwrap().status, MissionStatuses::Open);
    assert_eq!(store.set_status(id, 7, MissionStatuses::Failed), Ok(id));
    assert_eq!(store.get_one(id).unwrap().status, MissionStatuses::Failed);
}

#[test]
fn rows_are_unique_and_deleting_is_safe() {
    let mut store = MissionMemoryStore::new();
    let model = AddMissionModel { name: "Rows".to_string(), description: None };
    let id = store.add(model.to_entity(7), 10).unwrap();
    let row = CrewMemberShips { mission_id: id, brawler_id: 3 };
    assert_eq!(store.insert_membership(row), Ok(()));
    assert_eq!(store.insert_membership(row), Err(MissionError::DuplicateMembership));
    assert!(store.delete_membership(row));
    assert!(!store.delete_membership(row));
    assert!(!store.delete_membership(CrewMemberShips { mission_id: 50, brawler_id: 3 }));
    assert_eq!(store.crew_counting(id), 0);
}

#[test]
fn mission_is_shown_with_its_derived_crew_count() {
    let mut store = MissionMemoryStore::new();
    let model = AddMissionModel { name: "Seen".to_string(), description: Some("d".to_string()) };
    let id = store.add(model.to_entity(7), 10).unwrap();
    store.insert_membership(CrewMemberShips { mission_id: id, brawler_id: 3 }).unwrap();
    store.insert_membership(CrewMemberShips { mission_id: id, brawler_id: 4 }).unwrap();
    let viewer = MissionViewingUseCase::new();
    let shown = viewer.get_one(&store, id).unwrap();
    assert_eq!(shown.id, id);
    assert_eq!(shown.name, "Seen");
    assert_eq!(shown.description, Some("d".to_string()));
    assert_eq!(shown.status, MissionStatuses::Open);
    assert_eq!(shown.chief_id, 7);
    assert_eq!(shown.crew_count, 2);
    assert_eq!(shown.created_at, 10);
    assert_eq!(viewer.get_crew(&store, id).unwrap(), vec![3, 4]);
    assert!(matches!(viewer.get_one(&store, id + 1), Err(MissionError::NotFound)));
    assert_eq!(viewer.get_crew(&store, id + 1), Err(MissionError::NotFound));
}

#[test]
fn edit_request_names_a_status_or_is_rejected() {
    let edit = EditMissionModel {
        name: "New".to_string(),
        description: None,
        status: Some("InProgress".to_string()),
    };
    let entity = edit.to_entity(7).unwrap();
    assert_eq!(entity.name, Some("New".to_string()));
    assert_eq!(entity.description, None);
    assert_eq!(entity.status, Some(MissionStatuses::InProgress));
    assert_eq!(entity.chief_id, 7);
    let plain = EditMissionModel { name: "New".to_string(), description: None, status: None };
    assert_eq!(plain.to_entity(7).unwrap().status, None);
    let wrong = EditMissionModel {
        name: "New".to_string(),
        description: None,
        status: Some("Paused".to_string()),
    };
    assert!(wrong.to_entity(7).is_none());
    let misspelt = EditMissionModel {
        name: "New".to_string(),
        description: None,
        status: Some("Inprogress".to_string()),
    };
    assert!(misspelt.to_entity(7).is_none());
    for (text, status) in [
        ("Open", MissionStatuses::Open),
        ("InProgress", MissionStatuses::InProgress),
        ("Completed", MissionStatuses::Completed),
        ("Failed", MissionStatuses::Failed),
    ] {
        let named = EditMissionModel {
            name: "New".to_string(),
            description: Some("d".to_string()),
            status: Some(text.to_string()),
        };
        let entity = named.to_entity(9).unwrap();
        assert_eq!(entity.status, Some(status));
        assert_eq!(entity.description, Some("d".to_string()));
    }
}

#[test]
fn new_mission_request_becomes_an_open_mission() {
    let model = AddMissionModel { name: "Fresh".to_string(), description: Some("x".to_string()) };
    let entity = model.to_entity(11);
    assert_eq!(entity.name, "Fresh");
    assert_eq!(entity.description, Some("x".to_string()));
    assert_eq!(entity.status, MissionStatuses::Open);
    assert_eq!(entity.chief_id, 11);
}

#[test]
fn store_fails_once_the_ids_are_used_up() {
    let mut store = MissionMemoryStore::starting_at(i32::MAX - 1);
    let first = AddMissionModel { name: "Last".to_string(), description: None };
    assert_eq!(store.add(first.to_entity(7), 1), Ok(i32::MAX - 1));
    let second = AddMissionModel { name: "None".to_string(), description: None };
    let refused = store.add(second.to_entity(7), 2);
    assert_eq!(refused, Err(MissionError::PersistenceFailure));
    assert!(refused.unwrap_err().is_retryable());
    assert_eq!(store.get_one(i32::MAX - 1).unwrap().name, "Last");
    assert!(matches!(store.get_one(i32::MAX), Err(MissionError::NotFound)));
}

#[test]
fn rows_written_without_a_check_can_overfill_a_roster() {
    let mut store = MissionMemoryStore::new();
    let model = AddMissionModel { name: "Race".to_string(), description: None };
    let id = store.add(model.to_entity(7), 10).unwrap();
    store.insert_membership(CrewMemberShips { mission_id: id, brawler_id: 1 }).unwrap();
    store.insert_membership(CrewMemberShips { mission_id: id, brawler_id: 2 }).unwrap();
    assert_eq!(store.crew_counting(id), 2);
    let roster = mission_crew::crew_operation::CrewOperationUseCase::new(1);
    assert_eq!(roster.join(&mut store, id, 3), Err(MissionError::CapacityExceeded { max_crew: 1 }));
    assert_eq!(store.crew_counting(id), 2);
}

#[test]
fn listing_shows_the_visible_missions_newest_first() {
    let mut store = MissionMemoryStore::new();
    for (name, chief) in [("A", 1), ("B", 2), ("C", 3), ("D", 4)] {
        let model = AddMissionModel { name: name.to_string(), description: None };
        store.add(model.to_entity(chief), 10).unwrap();
    }
    store.insert_membership(CrewMemberShips { mission_id: 2, brawler_id: 9 }).unwrap();
    store.set_status(2, 2, MissionStatuses::InProgress).unwrap();
    store.set_status(4, 4, MissionStatuses::InProgress).unwrap();
    assert!(store.remove(3, 20));

    let everything = MissionFilter { status: None };
    let names: Vec<String> = store.get_all(&everything).into_iter().map(|m| m.name).collect();
    assert_eq!(names, vec!["D", "B", "A"]);

    let running = MissionFilter { status: Some(MissionStatuses::InProgress) };
    let ids: Vec<i32> = store.get_all(&running).into_iter().map(|m| m.id).collect();
    assert_eq!(ids, vec![4, 2]);

    let done = MissionFilter { status: Some(MissionStatuses::Completed) };
    assert!(store.get_all(&done).is_empty());
    assert!(running.matches(MissionStatuses::InProgress));
    assert!(!running.matches(MissionStatuses::Open));
    assert!(everything.matches(MissionStatuses::Failed));

    let viewer = MissionViewingUseCase::new();
    let shown = viewer.get_all(&store, &running);
    assert_eq!(shown.len(), 2);
    assert_eq!((shown[0].id, shown[0].crew_count, shown[0].chief_id), (4, 0, 4));
    assert_eq!((shown[1].id, shown[1].crew_count, shown[1].chief_id), (2, 1, 2));
    assert!(viewer.get_all(&MissionMemoryStore::new(), &everything).is_empty());
}
