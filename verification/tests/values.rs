use mission_crew::base64_image::{Base64Image, ImageError};
use mission_crew::brawler_model::{format_tag, BrawlerEntity, BrawlerSummaryModel, RegisterBrawlerModel};
use mission_crew::errors::MissionError;
use mission_crew::mission_statuses::MissionStatuses;
use mission_crew::stage::{InvalidStage, Stage};

#[test]
fn statuses_are_written_and_read_by_their_labels() {
    assert_eq!(MissionStatuses::Open.to_string(), "Open");
    assert_eq!(MissionStatuses::InProgress.to_string(), "InProgress");
    assert_eq!(MissionStatuses::Completed.to_string(), "Completed");
    assert_eq!(MissionStatuses::Failed.to_string(), "Failed");
    for status in [
        MissionStatuses::Open,
        MissionStatuses::InProgress,
        MissionStatuses::Completed,
        MissionStatuses::Failed,
    ] {
        assert_eq!(MissionStatuses::try_from_str(&status.to_string()), Some(status));
    }
    assert_eq!(MissionStatuses::try_from_str("InProgress"), Some(MissionStatuses::InProgress));
    assert_eq!(MissionStatuses::try_from_str("Inprogress"), None);
    assert_eq!(MissionStatuses::try_from_str("In Progress"), None);
    assert_eq!(MissionStatuses::try_from_str("open"), None);
    assert_eq!(MissionStatuses::try_from_str(""), None);
    assert_eq!(MissionStatuses::default(), MissionStatuses::Open);
}

#[test]
fn only_open_and_failed_accept_roster_changes() {
    assert!(MissionStatuses::Open.accepts_roster_changes());
    assert!(MissionStatuses::Failed.accepts_roster_changes());
    assert!(!MissionStatuses::InProgress.accepts_roster_changes());
    assert!(!MissionStatuses::Completed.accepts_roster_changes());
}

#[test]
fn only_store_failures_may_be_retried() {
    assert!(MissionError::PersistenceFailure.is_retryable());
    assert!(!MissionError::NotFound.is_retryable());
    assert!(!MissionError::Unauthorized { chief_id: 1, requested: MissionStatuses::Failed }.is_retryable());
    assert!(!MissionError::CapacityExceeded { max_crew: 4 }.is_retryable());
    assert!(!MissionError::DuplicateMembership.is_retryable());
    assert!(!MissionError::NotAMember.is_retryable());
}

#[test]
fn stages_are_read_by_short_and_long_names() {
    assert_eq!(Stage::try_from_str("Local"), Ok(Stage::Local));
    assert_eq!(Stage::try_from_str("Dev"), Ok(Stage::Development));
    assert_eq!(Stage::try_from_str("Development"), Ok(Stage::Development));
    assert_eq!(Stage::try_from_str("Prod"), Ok(Stage::Production));
    assert_eq!(Stage::try_from_str("Production"), Ok(Stage::Production));
    assert_eq!(Stage::try_from_str(""), Err(InvalidStage));
    assert_eq!(Stage::try_from_str("local"), Err(InvalidStage));
    assert_eq!("Prod".parse::<Stage>(), Ok(Stage::Production));
    assert_eq!("prod".parse::<Stage>(), Err(InvalidStage));
    assert_eq!(Stage::default(), Stage::Development);
    assert_eq!(Stage::Local.to_string(), "Local");
    assert_eq!(Stage::Development.to_string(), "Dev");
    assert_eq!(Stage::Production.to_string(), "Prod");
}

#[test]
fn png_and_jpeg_become_data_urls() {
    let png = Base64Image::new("iVBORw0KGgo=".to_string()).unwrap();
    assert_eq!(png.into_inner(), "data:image/png;base64,iVBORw0KGgo=");
    let jpeg = Base64Image::new("/9j/4A==".to_string()).unwrap();
    assert_eq!(jpeg.into_inner(), "data:image/jpeg;base64,/9j/4A==");
}

#[test]
fn other_texts_are_refused_as_images() {
    assert_eq!(Base64Image::new(String::new()).err(), Some(ImageError::Empty));
    assert_eq!(Base64Image::new("not base64!".to_string()).err(), Some(ImageError::InvalidData));
    assert_eq!(Base64Image::new("aGVsbG8=".to_string()).err(), Some(ImageError::UnsupportedType));
    assert_eq!(Base64Image::new("R0lGODlh".to_string()).err(), Some(ImageError::UnsupportedType));
}

#[test]
fn image_is_labelled_with_the_type_found() {
    let made = Base64Image::with_mime_type("QUJD".to_string(), Some("image/png".to_string())).unwrap();
    assert_eq!(made.into_inner(), "data:image/png;base64,QUJD");
    assert_eq!(
        Base64Image::with_mime_type("QUJD".to_string(), Some("image/gif".to_string())).err(),
        Some(ImageError::UnsupportedType)
    );
    assert_eq!(
        Base64Image::with_mime_type("QUJD".to_string(), None).err(),
        Some(ImageError::UnsupportedType)
    );
}

#[test]
fn tags_have_four_digits() {
    assert_eq!(format_tag(0), "0000");
    assert_eq!(format_tag(7), "0007");
    assert_eq!(format_tag(42), "0042");
    assert_eq!(format_tag(305), "0305");
    assert_eq!(format_tag(9999), "9999");
}

#[test]
fn registration_keeps_the_request_and_draws_a_tag() {
    let model = RegisterBrawlerModel {
        username: "ann".to_string(),
        password: "hash".to_string(),
        display_name: "Ann".to_string(),
        upload_avatar: None,
    };
    let fixed = model.to_entity_with_tag(12);
    assert_eq!(fixed.username, "ann");
    assert_eq!(fixed.password, "hash");
    assert_eq!(fixed.display_name, "Ann");
    assert_eq!(fixed.tag, "0012");
    for _ in 0..50 {
        let entity = model.to_entity();
        assert_eq!(entity.username, "ann");
        assert_eq!(entity.tag.len(), 4);
        assert!(entity.tag.chars().all(|c| c.is_ascii_digit()));
    }
}

#[test]
fn summary_shows_what_others_may_see() {
    let entity = BrawlerEntity {
        id: 3,
        username: "ann".to_string(),
        password: "hash".to_string(),
        display_name: "Ann".to_string(),
        tag: "0012".to_string(),
        avatar_url: Some("http://a/b.png".to_string()),
        created_at: 1,
        updated_at: 2,
    };
    let summary = BrawlerSummaryModel::from(entity);
    assert_eq!(summary.id, 3);
    assert_eq!(summary.display_name, "Ann");
    assert_eq!(summary.tag, "0012");
    assert_eq!(summary.avatar_url, Some("http://a/b.png".to_string()));
}

#[test]
fn transition_table_has_four_transitions() {
    let all = [
        MissionStatuses::Open,
        MissionStatuses::InProgress,
        MissionStatuses::Completed,
        MissionStatuses::Failed,
    ];
    let mut allowed = Vec::new();
    for from in all {
        for to in all {
            if from.can_become(to) {
                allowed.push((from, to));
            }
        }
    }
    assert_eq!(
        allowed,
        vec![
            (MissionStatuses::Open, MissionStatuses::InProgress),
            (MissionStatuses::InProgress, MissionStatuses::Completed),
            (MissionStatuses::InProgress, MissionStatuses::Failed),
            (MissionStatuses::Failed, MissionStatuses::InProgress),
        ]
    );
}

#[test]
fn longer_tags_are_written_in_full() {
    assert_eq!(format_tag(1000), "1000");
    assert_eq!(format_tag(10000), "10000");
    assert_eq!(format_tag(u16::MAX), "65535");
    for tag in [0u16, 1, 9, 10, 99, 100, 999, 1000, 4321, 9999, 10000, 54321] {
        assert_eq!(format_tag(tag), format!("{:04}", tag));
    }
}
