use vstd::prelude::*;
use crate::mission_statuses::MissionStatuses;

verus! {

/// A mission as the store keeps it. Times are seconds since the epoch.
#[derive(Debug)]
pub struct MissionEntity {
    pub id: i32,
    pub name: String,
    pub description: Option<String>,
    pub status: MissionStatuses,
    pub chief_id: i32,
    pub created_at: i64,
    pub updated_at: i64,
    /// Set once the mission is soft-deleted; such a mission is invisible.
    pub deleted_at: Option<i64>,
}

/// What is needed to create a mission.
#[derive(Debug)]
pub struct AddMissionEntity {
    pub name: String,
    pub description: Option<String>,
    pub status: MissionStatuses,
    pub chief_id: i32,
}

/// The changes an edit asks for.
#[derive(Debug)]
pub struct EditMissionEntity {
    pub name: Option<String>,
    pub description: Option<String>,
    pub status: Option<MissionStatuses>,
    pub chief_id: i32,
}

/// One roster row: `brawler_id` is enrolled in `mission_id`.
#[derive(Clone, Copy, Debug, PartialEq, Eq, Structural)]
pub struct CrewMemberShips {
    pub mission_id: i32,
    pub brawler_id: i32,
}

/// A mission as it is shown, with its derived crew count.
#[derive(Debug)]
pub struct MissionModel {
    pub id: i32,
    pub name: String,
    pub description: Option<String>,
    pub status: MissionStatuses,
    pub chief_id: i32,
    pub crew_count: u32,
    pub created_at: i64,
    pub updated_at: i64,
}

/// Which missions a listing asks for: all of them, or those in one status.
#[derive(Clone, Copy, Debug, PartialEq, Eq, Structural)]
pub struct MissionFilter {
    pub status: Option<MissionStatuses>,
}

impl MissionFilter {
    /// Whether a mission in the status `status` is asked for.
    pub open spec fn admits(self, status: MissionStatuses) -> bool {
        match self.status {
            Some(wanted) => status == wanted,
            None => true,
        }
    }

    /// Whether a mission in the status `status` is asked for.
    pub fn matches(&self, status: MissionStatuses) -> (wanted: bool)
        ensures
            wanted == self.admits(status),
    {
        match self.status {
            Some(wanted) => status == wanted,
            None => true,
        }
    }
}

/// The ids of the missions of `missions`, in their order.
pub open spec fn entity_ids(missions: Seq<MissionEntity>) -> Seq<i32> {
    Seq::new(missions.len(), |k: int| missions[k].id)
}

/// The ids of the missions that `models` shows, in their order.
pub open spec fn model_ids(models: Seq<MissionModel>) -> Seq<i32> {
    Seq::new(models.len(), |k: int| models[k].id)
}

/// A request to create a mission.
#[derive(Debug)]
pub struct AddMissionModel {
    pub name: String,
    pub description: Option<String>,
}

/// A request to edit a mission. The status arrives as text.
#[derive(Debug)]
pub struct EditMissionModel {
    pub name: String,
    pub description: Option<String>,
    pub status: Option<String>,
}

/// Copies an optional text.
pub fn clone_text(text: &Option<String>) -> (copy: Option<String>)
    ensures
        copy == *text,
{
    match text {
        Some(inner) => Some(inner.clone()),
        None => None,
    }
}

impl MissionEntity {
    /// Not soft-deleted.
    pub open spec fn is_visible(self) -> bool {
        self.deleted_at is None
    }

    /// A copy of the entity, field for field.
    pub fn duplicate(&self) -> (copy: MissionEntity)
        ensures
            copy == *self,
    {
        MissionEntity {
            id: self.id,
            name: self.name.clone(),
            description: clone_text(&self.description),
            status: self.status,
            chief_id: self.chief_id,
            created_at: self.created_at,
            updated_at: self.updated_at,
            deleted_at: self.deleted_at,
        }
    }
}

impl AddMissionModel {
    /// The mission to create for `chief_id`: it starts out `Open`.
    pub fn to_entity(&self, chief_id: i32) -> (entity: AddMissionEntity)
        ensures
            entity.name == self.name,
            entity.description == self.description,
            entity.status == MissionStatuses::Open,
            entity.chief_id == chief_id,
    {
        AddMissionEntity {
            name: self.name.clone(),
            description: clone_text(&self.description),
            status: MissionStatuses::Open,
            chief_id,
        }
    }
}

impl EditMissionModel {
    /// The status the request names, read as a label.
    pub open spec fn requested_status(self) -> Option<Option<MissionStatuses>> {
        match self.status {
            None => Some(None),
            Some(text) => match MissionStatuses::from_label(text@) {
                Some(status) => Some(Some(status)),
                None => None,
            },
        }
    }

    /// The edit to apply on behalf of `chief_id`. A status text that is not
    /// the label of a status is rejected: the result is then `None`.
    pub fn to_entity(&self, chief_id: i32) -> (entity: Option<EditMissionEntity>)
        ensures
            entity is Some <==> self.requested_status() is Some,
            entity matches Some(edit) ==> {
                &&& edit.name == Some(self.name)
                &&& edit.description == self.description
                &&& Some(edit.status) == self.requested_status()
                &&& edit.chief_id == chief_id
            },
    {
        let status = match &self.status {
            None => None,
            Some(text) => match MissionStatuses::try_from_str(text.as_str()) {
                Some(status) => Some(status),
                None => {
                    return None;
                },
            },
        };
        Some(
            EditMissionEntity {
                name: Some(self.name.clone()),
                description: clone_text(&self.description),
                status,
                chief_id,
            },
        )
    }
}

} // verus!
