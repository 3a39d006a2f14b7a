use vstd::prelude::*;
use crate::errors::MissionError;
use crate::missions::{entity_ids, model_ids, MissionEntity, MissionFilter, MissionModel};
use crate::model::{wanted, MissionState};
use crate::store::MissionMemoryStore;

verus! {

/// Read-only views of missions and rosters.
pub struct MissionViewingUseCase {}

/// The mission of `state` as it is shown: its own fields and the number of
/// brawlers on its roster.
pub open spec fn shown(state: MissionState) -> MissionModel {
    MissionModel {
        id: state.entity.id,
        name: state.entity.name,
        description: state.entity.description,
        status: state.entity.status,
        chief_id: state.entity.chief_id,
        crew_count: state.crew.len() as u32,
        created_at: state.entity.created_at,
        updated_at: state.entity.updated_at,
    }
}

impl MissionViewingUseCase {
    pub fn new() -> (viewer: MissionViewingUseCase) {
        MissionViewingUseCase {}
    }

    /// Puts a mission and its crew count together for display.
    pub fn to_model(mission: MissionEntity, crew_count: u32) -> (model: MissionModel)
        ensures
            model == (MissionModel {
                id: mission.id,
                name: mission.name,
                description: mission.description,
                status: mission.status,
                chief_id: mission.chief_id,
                crew_count,
                created_at: mission.created_at,
                updated_at: mission.updated_at,
            }),
    {
        MissionModel {
            id: mission.id,
            name: mission.name,
            description: mission.description,
            status: mission.status,
            chief_id: mission.chief_id,
            crew_count,
            created_at: mission.created_at,
            updated_at: mission.updated_at,
        }
    }

    /// The mission `mission_id` with its derived crew count, or `NotFound`
    /// where no such mission is visible.
    pub fn get_one(&self, store: &MissionMemoryStore, mission_id: i32) -> (found: Result<
        MissionModel,
        MissionError,
    >)
        requires
            store.wf(),
        ensures
            match found {
                Ok(model) => store@.dom().contains(mission_id) && model == shown(
                    store@[mission_id],
                ),
                Err(e) => e == MissionError::NotFound && !store@.dom().contains(mission_id),
            },
    {
        match store.get_one(mission_id) {
            Ok(mission) => {
                let crew_count = store.crew_counting(mission_id);
                proof {
                    store.lemma_missions_well_formed();
                }
                Ok(Self::to_model(mission, crew_count))
            },
            Err(e) => Err(e),
        }
    }

    /// The visible missions that `filter` asks for, newest first, each with
    /// its derived crew count.
    pub fn get_all(&self, store: &MissionMemoryStore, filter: &MissionFilter) -> (found: Vec<
        MissionModel,
    >)
        requires
            store.wf(),
        ensures
            forall|k: int|
                0 <= k < found@.len() ==> {
                    &&& wanted(store@, *filter, (#[trigger] found@[k]).id)
                    &&& found@[k] == shown(store@[found@[k].id])
                },
            forall|k: int, l: int|
                0 <= k < l < found@.len() ==> (#[trigger] found@[k]).id > (#[trigger] found@[l]).id,
            forall|mission_id: i32| #[trigger]
                wanted(store@, *filter, mission_id) ==> model_ids(found@).contains(mission_id),
    {
        let missions = store.get_all(filter);
        let mut found: Vec<MissionModel> = Vec::new();
        proof {
            store.lemma_missions_well_formed();
        }
        let mut i: usize = 0;
        while i < missions.len()
            invariant
                store.wf(),
                i <= missions@.len(),
                found@.len() == i,
                forall|k: int|
                    0 <= k < missions@.len() ==> {
                        &&& wanted(store@, *filter, (#[trigger] missions@[k]).id)
                        &&& missions@[k] == store@[missions@[k].id].entity
                    },
                forall|k: int|
                    0 <= k < i ==> (#[trigger] found@[k]) == shown(store@[missions@[k].id]),
            decreases missions@.len() - i,
        {
            let mission = missions[i].duplicate();
            assert(wanted(store@, *filter, missions@[i as int].id));
            let crew_count = store.crew_counting(mission.id);
            proof {
                store.lemma_missions_well_formed();
            }
            found.push(Self::to_model(mission, crew_count));
            i = i + 1;
        }
        proof {
            assert forall|k: int| 0 <= k < found@.len() implies {
                &&& wanted(store@, *filter, (#[trigger] found@[k]).id)
                &&& found@[k] == shown(store@[found@[k].id])
            } by {
                assert(wanted(store@, *filter, missions@[k].id));
                assert(found@[k].id == missions@[k].id);
            }
            assert forall|k: int, l: int| 0 <= k < l < found@.len() implies (#[trigger] found@[k]).id
                > (#[trigger] found@[l]).id by {
                assert(found@[k].id == missions@[k].id);
                assert(found@[l].id == missions@[l].id);
            }
            assert forall|mission_id: i32| #[trigger]
                wanted(store@, *filter, mission_id) implies model_ids(found@).contains(
                mission_id,
            ) by {
                assert(entity_ids(missions@).contains(mission_id));
                let k = entity_ids(missions@).index_of(mission_id);
                assert(found@[k].id == missions@[k].id);
                assert(model_ids(found@)[k] == mission_id);
            }
        }
        found
    }

    /// The brawlers enrolled in the mission `mission_id`, in the order in
    /// which they joined, or `NotFound` where no such mission is visible.
    pub fn get_crew(&self, store: &MissionMemoryStore, mission_id: i32) -> (found: Result<
        Vec<i32>,
        MissionError,
    >)
        requires
            store.wf(),
        ensures
            match found {
                Ok(crew) => store@.dom().contains(mission_id) && crew@ == store@[mission_id].crew,
                Err(e) => e == MissionError::NotFound && !store@.dom().contains(mission_id),
            },
    {
        store.get_crew(mission_id)
    }
}

} // verus!
