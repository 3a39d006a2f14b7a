use vstd::prelude::*;
use crate::errors::MissionError;
use crate::mission_statuses::MissionStatuses;
use crate::missions::{
    entity_ids, AddMissionEntity, CrewMemberShips, MissionEntity, MissionFilter,
};
use crate::model::{
    apply_writes, wanted, write_effect, write_reply, MissionState, Missions, StoreWrite,
};

verus! {

/// A mission and its roster, as the in-memory store holds them.
struct MissionRecord {
    entity: MissionEntity,
    crew: Vec<i32>,
}

impl MissionRecord {
    spec fn state(self) -> MissionState {
        MissionState { entity: self.entity, crew: self.crew@ }
    }
}

/// The mission store and the roster store in memory.
///
/// Whoever holds the store mutably is alone with it, so a read, a check and
/// a write made through one `&mut` borrow form one atomic step: this is the
/// serialization point that keeps two joins from taking the same last slot.
pub struct MissionMemoryStore {
    records: Vec<MissionRecord>,
    next_id: i32,
}

impl MissionMemoryStore {
    /// Ids grow with the order of creation and stay below the next id to
    /// hand out; no roster holds a brawler twice, and every roster can be
    /// counted in a `u32`.
    pub closed spec fn wf(&self) -> bool {
        &&& forall|i: int, j: int|
            0 <= i < j < self.records@.len() ==> self.records@[i].entity.id
                < self.records@[j].entity.id
        &&& forall|i: int|
            0 <= i < self.records@.len() ==> {
                &&& (#[trigger] self.records@[i]).entity.id < self.next_id
                &&& self.records@[i].crew@.no_duplicates()
                &&& self.records@[i].crew@.len() <= u32::MAX
            }
    }

    /// Record `i` is the visible mission `mission_id`.
    spec fn holds(&self, i: int, mission_id: i32) -> bool {
        &&& 0 <= i < self.records@.len()
        &&& self.records@[i].entity.id == mission_id
        &&& self.records@[i].entity.is_visible()
    }

    /// The visible missions, by id.
    pub closed spec fn view(&self) -> Missions {
        Map::new(
            |mission_id: i32| exists|i: int| self.holds(i, mission_id),
            |mission_id: i32| self.records@[choose|i: int| self.holds(i, mission_id)].state(),
        )
    }

    /// The id that the next mission gets.
    pub closed spec fn next_id(&self) -> i32 {
        self.next_id
    }

    /// In a well-formed store every visible mission has its own id, a roster
    /// without repetition that a `u32` can count, and an id already handed out.
    pub proof fn lemma_missions_well_formed(&self)
        requires
            self.wf(),
        ensures
            forall|mission_id: i32| #[trigger]
                self@.dom().contains(mission_id) ==> {
                    &&& self@[mission_id].entity.id == mission_id
                    &&& self@[mission_id].entity.is_visible()
                    &&& self@[mission_id].well_formed()
                    &&& self@[mission_id].crew.len() <= u32::MAX
                    &&& mission_id < self.next_id()
                },
    {
        assert forall|mission_id: i32| #[trigger] self@.dom().contains(mission_id) implies {
            &&& self@[mission_id].entity.id == mission_id
            &&& self@[mission_id].entity.is_visible()
            &&& self@[mission_id].well_formed()
            &&& self@[mission_id].crew.len() <= u32::MAX
            &&& mission_id < self.next_id()
        } by {
            let i = choose|i: int| self.holds(i, mission_id);
            assert(self.holds(i, mission_id));
            assert(self.records@[i].entity.id < self.next_id);
        }
    }

    proof fn lemma_holds(&self, i: int, mission_id: i32)
        requires
            self.wf(),
            self.holds(i, mission_id),
        ensures
            self@.dom().contains(mission_id),
            self@[mission_id] == self.records@[i].state(),
    {
        let j = choose|j: int| self.holds(j, mission_id);
        assert(self.holds(j, mission_id));
        if i < j {
            assert(self.records@[i].entity.id < self.records@[j].entity.id);
        } else if j < i {
            assert(self.records@[j].entity.id < self.records@[i].entity.id);
        }
    }

    /// An empty store; the first mission gets the id 1.
    pub fn new() -> (store: MissionMemoryStore)
        ensures
            store.wf(),
            store@ == Map::<i32, MissionState>::empty(),
            store.next_id() == 1,
    {
        Self::starting_at(1)
    }

    /// An empty store whose first mission gets the id `first_id`.
    pub fn starting_at(first_id: i32) -> (store: MissionMemoryStore)
        ensures
            store.wf(),
            store@ == Map::<i32, MissionState>::empty(),
            store.next_id() == first_id,
    {
        let store = MissionMemoryStore { records: Vec::new(), next_id: first_id };
        assert(store@ =~= Map::<i32, MissionState>::empty());
        store
    }

    fn position(&self, mission_id: i32) -> (found: Option<usize>)
        requires
            self.wf(),
        ensures
            match found {
                Some(i) => self.holds(i as int, mission_id) && self@.dom().contains(mission_id)
                    && self@[mission_id] == self.records@[i as int].state(),
                None => !self@.dom().contains(mission_id),
            },
    {
        let mut i: usize = 0;
        while i < self.records.len()
            invariant
                self.wf(),
                i <= self.records@.len(),
                forall|j: int| 0 <= j < i ==> !self.holds(j, mission_id),
            decreases self.records@.len() - i,
        {
            if self.records[i].entity.id == mission_id && self.records[i].entity.deleted_at.is_none() {
                proof {
                    self.lemma_holds(i as int, mission_id);
                }
                return Some(i);
            }
            i = i + 1;
        }
        None
    }

    /// The mission `mission_id`, or `NotFound` where none is visible.
    pub fn get_one(&self, mission_id: i32) -> (found: Result<MissionEntity, MissionError>)
        requires
            self.wf(),
        ensures
            match found {
                Ok(entity) => self@.dom().contains(mission_id) && entity
                    == self@[mission_id].entity,
                Err(e) => e == MissionError::NotFound && !self@.dom().contains(mission_id),
            },
    {
        match self.position(mission_id) {
            Some(i) => Ok(self.records[i].entity.duplicate()),
            None => Err(MissionError::NotFound),
        }
    }

    /// Record `j` is a visible mission that `filter` asks for.
    spec fn offers(&self, j: int, filter: MissionFilter) -> bool {
        &&& 0 <= j < self.records@.len()
        &&& self.records@[j].entity.is_visible()
        &&& filter.admits(self.records@[j].entity.status)
    }

    /// The visible missions that `filter` asks for, newest first: each of
    /// them once, as the store holds it, by falling id (ids are handed out
    /// in the order of creation).
    pub fn get_all(&self, filter: &MissionFilter) -> (found: Vec<MissionEntity>)
        requires
            self.wf(),
        ensures
            forall|k: int|
                0 <= k < found@.len() ==> {
                    &&& wanted(self@, *filter, (#[trigger] found@[k]).id)
                    &&& found@[k] == self@[found@[k].id].entity
                },
            forall|k: int, l: int|
                0 <= k < l < found@.len() ==> (#[trigger] found@[k]).id > (#[trigger] found@[l]).id,
            forall|mission_id: i32| #[trigger]
                wanted(self@, *filter, mission_id) ==> entity_ids(found@).contains(mission_id),
    {
        let mut found: Vec<MissionEntity> = Vec::new();
        let ghost mut source: Seq<int> = Seq::empty();
        let mut i: usize = self.records.len();
        while i > 0
            invariant
                self.wf(),
                i <= self.records@.len(),
                source.len() == found@.len(),
                forall|k: int|
                    0 <= k < source.len() ==> {
                        &&& i <= (#[trigger] source[k]) < self.records@.len()
                        &&& self.offers(source[k], *filter)
                        &&& found@[k] == self.records@[source[k]].entity
                    },
                forall|k: int, l: int|
                    0 <= k < l < source.len() ==> (#[trigger] source[k]) > (#[trigger] source[l]),
                forall|j: int|
                    i <= j < self.records@.len() && #[trigger] self.offers(j, *filter)
                        ==> source.contains(j),
            decreases i,
        {
            i = i - 1;
            if self.records[i].entity.deleted_at.is_none() && filter.matches(
                self.records[i].entity.status,
            ) {
                let ghost before = source;
                found.push(self.records[i].entity.duplicate());
                proof {
                    source = source.push(i as int);
                    assert(source[before.len() as int] == i);
                    assert forall|j: int|
                        i <= j < self.records@.len() && #[trigger] self.offers(
                            j,
                            *filter,
                        ) implies source.contains(j) by {
                        if j > i {
                            let k = before.index_of(j);
                            assert(before.contains(j));
                            assert(source[k] == j);
                        }
                    }
                }
            } else {
                assert(!self.offers(i as int, *filter));
            }
        }
        proof {
            assert forall|k: int| 0 <= k < found@.len() implies {
                &&& wanted(self@, *filter, (#[trigger] found@[k]).id)
                &&& found@[k] == self@[found@[k].id].entity
            } by {
                let j = source[k];
                assert(self.offers(j, *filter));
                assert(self.holds(j, found@[k].id));
                self.lemma_holds(j, found@[k].id);
            }
            assert forall|k: int, l: int| 0 <= k < l < found@.len() implies (#[trigger] found@[k]).id
                > (#[trigger] found@[l]).id by {
                assert(source[k] > source[l]);
                assert(self.records@[source[l]].entity.id < self.records@[source[k]].entity.id);
            }
            assert forall|mission_id: i32| #[trigger]
                wanted(self@, *filter, mission_id) implies entity_ids(found@).contains(
                mission_id,
            ) by {
                let j = choose|j: int| self.holds(j, mission_id);
                assert(self.holds(j, mission_id));
                self.lemma_holds(j, mission_id);
                assert(self.offers(j, *filter));
                assert(source.contains(j));
                let k = source.index_of(j);
                assert(found@[k].id == mission_id);
                assert(entity_ids(found@)[k] == mission_id);
            }
        }
        found
    }

    /// The number of brawlers enrolled in the mission `mission_id`; 0 where
    /// no such mission is visible.
    pub fn crew_counting(&self, mission_id: i32) -> (count: u32)
        requires
            self.wf(),
        ensures
            self@.dom().contains(mission_id) ==> count == self@[mission_id].crew_count(),
            !self@.dom().contains(mission_id) ==> count == 0,
    {
        match self.position(mission_id) {
            Some(i) => {
                assert(self.records@[i as int].crew@.len() <= u32::MAX);
                self.records[i].crew.len() as u32
            },
            None => 0,
        }
    }

    fn seat(crew: &Vec<i32>, brawler_id: i32) -> (found: Option<usize>)
        ensures
            match found {
                Some(k) => k < crew@.len() && crew@[k as int] == brawler_id,
                None => !crew@.contains(brawler_id),
            },
    {
        let mut k: usize = 0;
        while k < crew.len()
            invariant
                k <= crew@.len(),
                forall|j: int| 0 <= j < k ==> crew@[j] != brawler_id,
            decreases crew@.len() - k,
        {
            if crew[k] == brawler_id {
                return Some(k);
            }
            k = k + 1;
        }
        None
    }

    fn copy_crew(crew: &Vec<i32>) -> (copy: Vec<i32>)
        ensures
            copy@ == crew@,
    {
        let mut copy: Vec<i32> = Vec::new();
        let mut k: usize = 0;
        while k < crew.len()
            invariant
                k <= crew@.len(),
                copy@ == crew@.take(k as int),
            decreases crew@.len() - k,
        {
            copy.push(crew[k]);
            k = k + 1;
        }
        copy
    }

    /// Whether `brawler_id` is enrolled in the visible mission `mission_id`.
    pub fn is_member(&self, mission_id: i32, brawler_id: i32) -> (enrolled: bool)
        requires
            self.wf(),
        ensures
            enrolled == (self@.dom().contains(mission_id) && self@[mission_id].has_member(
                brawler_id,
            )),
    {
        match self.position(mission_id) {
            Some(i) => Self::seat(&self.records[i].crew, brawler_id).is_some(),
            None => false,
        }
    }

    /// The roster of the mission `mission_id` in the order of enrolment, or
    /// `NotFound` where no such mission is visible.
    pub fn get_crew(&self, mission_id: i32) -> (found: Result<Vec<i32>, MissionError>)
        requires
            self.wf(),
        ensures
            match found {
                Ok(crew) => self@.dom().contains(mission_id) && crew@ == self@[mission_id].crew,
                Err(e) => e == MissionError::NotFound && !self@.dom().contains(mission_id),
            },
    {
        match self.position(mission_id) {
            Some(i) => Ok(Self::copy_crew(&self.records[i].crew)),
            None => Err(MissionError::NotFound),
        }
    }

    proof fn lemma_record_replaced(before: Self, now: Self, i: int, mission_id: i32)
        requires
            before.wf(),
            before.holds(i, mission_id),
            now.records@.len() == before.records@.len(),
            now.next_id == before.next_id,
            forall|j: int|
                0 <= j < before.records@.len() && j != i ==> now.records@[j]
                    == before.records@[j],
            now.records@[i].entity.id == mission_id,
            now.records@[i].entity.is_visible(),
            now.records@[i].crew@.no_duplicates(),
            now.records@[i].crew@.len() <= u32::MAX,
        ensures
            now.wf(),
            now@ == before@.insert(mission_id, now.records@[i].state()),
    {
        assert forall|a: int, b: int| 0 <= a < b < now.records@.len() implies now.records@[a].entity.id
            < now.records@[b].entity.id by {
            assert(before.records@[a].entity.id < before.records@[b].entity.id);
        }
        assert forall|j: int| 0 <= j < now.records@.len() implies {
            &&& (#[trigger] now.records@[j]).entity.id < now.next_id
            &&& now.records@[j].crew@.no_duplicates()
            &&& now.records@[j].crew@.len() <= u32::MAX
        } by {
            assert(before.records@[j].entity.id < before.next_id);
        }
        assert(now.wf());
        let target = before@.insert(mission_id, now.records@[i].state());
        assert forall|k: i32| now@.dom().contains(k) <==> target.dom().contains(k) by {
            if now@.dom().contains(k) {
                let j = choose|j: int| now.holds(j, k);
                assert(now.holds(j, k));
                if j != i {
                    assert(before.holds(j, k));
                }
            }
            if target.dom().contains(k) && k != mission_id {
                let j = choose|j: int| before.holds(j, k);
                assert(before.holds(j, k));
                assert(now.holds(j, k));
            }
            if k == mission_id {
                assert(now.holds(i, k));
            }
        }
        assert forall|k: i32| now@.dom().contains(k) implies now@[k] == target[k] by {
            if k == mission_id {
                now.lemma_holds(i, k);
            } else {
                let j = choose|j: int| now.holds(j, k);
                assert(now.holds(j, k));
                assert(before.holds(j, k));
                before.lemma_holds(j, k);
                now.lemma_holds(j, k);
            }
        }
        assert(now@ =~= target);
    }

    /// Sets the status of the mission `mission_id` whose chief is `chief_id`
    /// and returns its id. Fails with `NotFound`, and changes nothing, where
    /// no visible mission has that id and that chief.
    pub fn set_status(&mut self, mission_id: i32, chief_id: i32, status: MissionStatuses) -> (done:
        Result<i32, MissionError>)
        requires
            old(self).wf(),
        ensures
            final(self).wf(),
            final(self).next_id() == old(self).next_id(),
            done is Ok <==> write_reply(
                old(self)@,
                StoreWrite::SetStatus { mission_id, chief_id, status },
            ) is Ok,
            done matches Ok(id) ==> id == mission_id && final(self)@ == write_effect(
                old(self)@,
                StoreWrite::SetStatus { mission_id, chief_id, status },
            ),
            done matches Err(e) ==> e == MissionError::NotFound && final(self)@ == old(self)@,
    {
        let ghost before = *self;
        match self.position(mission_id) {
            Some(i) => {
                if self.records[i].entity.chief_id != chief_id {
                    return Err(MissionError::NotFound);
                }
                self.records[i].entity.status = status;
                proof {
                    Self::lemma_record_replaced(before, *self, i as int, mission_id);
                    assert(self.records@[i as int].state() == before@[mission_id].with_status(
                        status,
                    ));
                }
                Ok(mission_id)
            },
            None => Err(MissionError::NotFound),
        }
    }

    /// Adds the roster row `row`. Fails, and changes nothing, where the
    /// mission is not visible (`NotFound`), where the row is there already
    /// (`DuplicateMembership`), and where the roster holds as many rows as a
    /// `u32` can count (`PersistenceFailure`).
    pub fn insert_membership(&mut self, row: CrewMemberShips) -> (done: Result<(), MissionError>)
        requires
            old(self).wf(),
        ensures
            final(self).wf(),
            final(self).next_id() == old(self).next_id(),
            done == write_reply(old(self)@, StoreWrite::InsertMember { row }),
            done is Ok ==> final(self)@ == write_effect(
                old(self)@,
                StoreWrite::InsertMember { row },
            ),
            done is Err ==> final(self)@ == old(self)@,
    {
        let ghost before = *self;
        match self.position(row.mission_id) {
            Some(i) => {
                if Self::seat(&self.records[i].crew, row.brawler_id).is_some() {
                    return Err(MissionError::DuplicateMembership);
                }
                if self.records[i].crew.len() >= u32::MAX as usize {
                    return Err(MissionError::PersistenceFailure);
                }
                self.records[i].crew.push(row.brawler_id);
                proof {
                    let crew = before.records@[i as int].crew@;
                    assert(self.records@[i as int].crew@ == crew.push(row.brawler_id));
                    assert(crew.push(row.brawler_id).no_duplicates());
                    Self::lemma_record_replaced(before, *self, i as int, row.mission_id);
                    assert(self.records@[i as int].state() == before@[row.mission_id].enroll(
                        row.brawler_id,
                    ));
                }
                Ok(())
            },
            None => Err(MissionError::NotFound),
        }
    }

    /// Deletes the roster row `row` and says whether it was there. Deleting
    /// a row that is not there, or one of a mission that is not visible,
    /// changes nothing and is no error.
    pub fn delete_membership(&mut self, row: CrewMemberShips) -> (deleted: bool)
        requires
            old(self).wf(),
        ensures
            final(self).wf(),
            final(self).next_id() == old(self).next_id(),
            deleted == (old(self)@.dom().contains(row.mission_id) && old(
                self,
            )@[row.mission_id].has_member(row.brawler_id)),
            final(self)@ == write_effect(old(self)@, StoreWrite::DeleteMember { row }),
    {
        let ghost before = *self;
        match self.position(row.mission_id) {
            Some(i) => {
                match Self::seat(&self.records[i].crew, row.brawler_id) {
                    Some(k) => {
                        self.records[i].crew.remove(k);
                        proof {
                            let crew = before.records@[i as int].crew@;
                            assert(crew.contains(row.brawler_id));
                            assert(crew.index_of(row.brawler_id) == k);
                            let rest = crew.remove(k as int);
                            assert(self.records@[i as int].crew@ == rest);
                            assert forall|a: int, b: int|
                                0 <= a < rest.len() && 0 <= b < rest.len() && a != b implies rest[a]
                                != rest[b] by {
                                let a0 = if a < k { a } else { a + 1 };
                                let b0 = if b < k { b } else { b + 1 };
                                assert(rest[a] == crew[a0] && rest[b] == crew[b0]);
                            }
                            Self::lemma_record_replaced(before, *self, i as int, row.mission_id);
                            assert(self.records@[i as int].state()
                                == before@[row.mission_id].dismiss(row.brawler_id));
                        }
                        true
                    },
                    None => {
                        assert(before@.insert(row.mission_id, before@[row.mission_id])
                            =~= before@);
                        false
                    },
                }
            },
            None => false,
        }
    }

    /// The mission that `add` creates from `mission` at time `now` under the
    /// id `id`: visible, with an empty roster.
    pub open spec fn created(mission: AddMissionEntity, id: i32, now: i64) -> MissionState {
        MissionState {
            entity: MissionEntity {
                id,
                name: mission.name,
                description: mission.description,
                status: mission.status,
                chief_id: mission.chief_id,
                created_at: now,
                updated_at: now,
                deleted_at: None,
            },
            crew: Seq::empty(),
        }
    }

    /// Creates a mission at time `now` and returns its id, the next one to
    /// hand out. Fails with `PersistenceFailure`, and changes nothing, once
    /// the ids are used up.
    pub fn add(&mut self, mission: AddMissionEntity, now: i64) -> (done: Result<i32, MissionError>)
        requires
            old(self).wf(),
        ensures
            final(self).wf(),
            old(self).next_id() < i32::MAX ==> {
                &&& done == Ok::<i32, MissionError>(old(self).next_id())
                &&& final(self).next_id() == old(self).next_id() + 1
                &&& !old(self)@.dom().contains(old(self).next_id())
                &&& final(self)@ == old(self)@.insert(
                    old(self).next_id(),
                    Self::created(mission, old(self).next_id(), now),
                )
            },
            old(self).next_id() == i32::MAX ==> {
                &&& done == Err::<i32, MissionError>(MissionError::PersistenceFailure)
                &&& final(self).next_id() == old(self).next_id()
                &&& final(self)@ == old(self)@
            },
    {
        if self.next_id == i32::MAX {
            return Err(MissionError::PersistenceFailure);
        }
        let ghost before = *self;
        let id = self.next_id;
        let record = MissionRecord {
            entity: MissionEntity {
                id,
                name: mission.name,
                description: mission.description,
                status: mission.status,
                chief_id: mission.chief_id,
                created_at: now,
                updated_at: now,
                deleted_at: None,
            },
            crew: Vec::new(),
        };
        self.records.push(record);
        self.next_id = id + 1;
        proof {
            let n = before.records@.len() as int;
            assert forall|i: int| 0 <= i < n implies self.records@[i] == before.records@[i] by {}
            assert forall|a: int, b: int| 0 <= a < b < self.records@.len() implies self.records@[a].entity.id
                < self.records@[b].entity.id by {
                if b < n {
                    assert(before.records@[a].entity.id < before.records@[b].entity.id);
                } else {
                    assert(before.records@[a].entity.id < before.next_id);
                }
            }
            assert forall|j: int| 0 <= j < self.records@.len() implies {
                &&& (#[trigger] self.records@[j]).entity.id < self.next_id
                &&& self.records@[j].crew@.no_duplicates()
                &&& self.records@[j].crew@.len() <= u32::MAX
            } by {
                if j < n {
                    assert(before.records@[j].entity.id < before.next_id);
                }
            }
            assert(self.wf());
            assert(!before@.dom().contains(id)) by {
                if before@.dom().contains(id) {
                    let j = choose|j: int| before.holds(j, id);
                    assert(before.holds(j, id));
                    assert(before.records@[j].entity.id < before.next_id);
                }
            }
            let target = before@.insert(id, Self::created(mission, id, now));
            assert forall|k: i32| self@.dom().contains(k) <==> target.dom().contains(k) by {
                if self@.dom().contains(k) {
                    let j = choose|j: int| self.holds(j, k);
                    assert(self.holds(j, k));
                    if j < n {
                        assert(before.holds(j, k));
                    }
                }
                if target.dom().contains(k) && k != id {
                    let j = choose|j: int| before.holds(j, k);
                    assert(before.holds(j, k));
                    assert(self.holds(j, k));
                }
                if k == id {
                    assert(self.holds(n, k));
                }
            }
            assert forall|k: i32| self@.dom().contains(k) implies self@[k] == target[k] by {
                if k == id {
                    assert(self.holds(n, k));
                    self.lemma_holds(n, k);
                    assert(self.records@[n].crew@ =~= Seq::<i32>::empty());
                } else {
                    let j = choose|j: int| self.holds(j, k);
                    assert(self.holds(j, k));
                    assert(j < n);
                    assert(before.holds(j, k));
                    before.lemma_holds(j, k);
                    self.lemma_holds(j, k);
                }
            }
            assert(self@ =~= target);
        }
        Ok(id)
    }

    /// Soft-deletes the mission `mission_id` at time `now`, where it is
    /// visible and `Open`, and says whether it did. A deleted mission is
    /// invisible from then on, and its id is not handed out again.
    pub fn remove(&mut self, mission_id: i32, now: i64) -> (removed: bool)
        requires
            old(self).wf(),
        ensures
            final(self).wf(),
            final(self).next_id() == old(self).next_id(),
            removed == (old(self)@.dom().contains(mission_id) && old(
                self,
            )@[mission_id].entity.status == MissionStatuses::Open),
            removed ==> final(self)@ == old(self)@.remove(mission_id),
            !removed ==> final(self)@ == old(self)@,
    {
        let ghost before = *self;
        match self.position(mission_id) {
            Some(i) => {
                match self.records[i].entity.status {
                    MissionStatuses::Open => {},
                    _ => {
                        return false;
                    },
                }
                self.records[i].entity.deleted_at = Some(now);
                proof {
                    let n = before.records@.len() as int;
                    assert forall|a: int, b: int| 0 <= a < b < n implies self.records@[a].entity.id
                        < self.records@[b].entity.id by {
                        assert(before.records@[a].entity.id < before.records@[b].entity.id);
                    }
                    assert forall|j: int| 0 <= j < n implies {
                        &&& (#[trigger] self.records@[j]).entity.id < self.next_id
                        &&& self.records@[j].crew@.no_duplicates()
                        &&& self.records@[j].crew@.len() <= u32::MAX
                    } by {
                        assert(before.records@[j].entity.id < before.next_id);
                    }
                    assert(self.wf());
                    let target = before@.remove(mission_id);
                    assert forall|k: i32| self@.dom().contains(k) <==> target.dom().contains(
                        k,
                    ) by {
                        if self@.dom().contains(k) {
                            let j = choose|j: int| self.holds(j, k);
                            assert(self.holds(j, k));
                            assert(j != i);
                            assert(before.holds(j, k));
                            if k == mission_id {
                                assert(before.records@[j].entity.id
                                    == before.records@[i as int].entity.id);
                                if j < i {
                                    assert(before.records@[j].entity.id
                                        < before.records@[i as int].entity.id);
                                } else {
                                    assert(before.records@[i as int].entity.id
                                        < before.records@[j].entity.id);
                                }
                            }
                        }
                        if target.dom().contains(k) {
                            let j = choose|j: int| before.holds(j, k);
                            assert(before.holds(j, k));
                            assert(j != i);
                            assert(self.holds(j, k));
                        }
                    }
                    assert forall|k: i32| self@.dom().contains(k) implies self@[k]
                        == target[k] by {
                        let j = choose|j: int| self.holds(j, k);
                        assert(self.holds(j, k));
                        assert(j != i);
                        assert(before.holds(j, k));
                        before.lemma_holds(j, k);
                        self.lemma_holds(j, k);
                    }
                    assert(self@ =~= target);
                }
                true
            },
            None => false,
        }
    }

    /// A copy of the store, as it is now.
    pub fn snapshot(&self) -> (copy: MissionMemoryStore)
        requires
            self.wf(),
        ensures
            copy.wf(),
            copy@ == self@,
            copy.next_id() == self.next_id(),
    {
        let mut records: Vec<MissionRecord> = Vec::new();
        let mut k: usize = 0;
        while k < self.records.len()
            invariant
                k <= self.records@.len(),
                records@.len() == k,
                forall|j: int| 0 <= j < k ==> (#[trigger] records@[j]).state()
                    == self.records@[j].state(),
            decreases self.records@.len() - k,
        {
            let record = MissionRecord {
                entity: self.records[k].entity.duplicate(),
                crew: Self::copy_crew(&self.records[k].crew),
            };
            records.push(record);
            k = k + 1;
        }
        let copy = MissionMemoryStore { records, next_id: self.next_id };
        proof {
            let n = self.records@.len() as int;
            assert forall|j: int| 0 <= j < n implies copy.records@[j].entity
                == self.records@[j].entity && copy.records@[j].crew@
                == self.records@[j].crew@ by {
                assert(copy.records@[j].state() == self.records@[j].state());
            }
            assert forall|a: int, b: int| 0 <= a < b < n implies copy.records@[a].entity.id
                < copy.records@[b].entity.id by {
                assert(self.records@[a].entity.id < self.records@[b].entity.id);
            }
            assert forall|j: int| 0 <= j < n implies {
                &&& (#[trigger] copy.records@[j]).entity.id < copy.next_id
                &&& copy.records@[j].crew@.no_duplicates()
                &&& copy.records@[j].crew@.len() <= u32::MAX
            } by {
                assert(self.records@[j].entity.id < self.next_id);
            }
            assert(copy.wf());
            assert forall|m: i32| copy@.dom().contains(m) <==> self@.dom().contains(m) by {
                if copy@.dom().contains(m) {
                    let j = choose|j: int| copy.holds(j, m);
                    assert(copy.holds(j, m));
                    assert(self.holds(j, m));
                }
                if self@.dom().contains(m) {
                    let j = choose|j: int| self.holds(j, m);
                    assert(self.holds(j, m));
                    assert(copy.holds(j, m));
                }
            }
            assert forall|m: i32| copy@.dom().contains(m) implies copy@[m] == self@[m] by {
                let j = choose|j: int| copy.holds(j, m);
                assert(copy.holds(j, m));
                assert(self.holds(j, m));
                copy.lemma_holds(j, m);
                self.lemma_holds(j, m);
                assert(copy.records@[j].state() == self.records@[j].state());
            }
            assert(copy@ =~= self@);
        }
        copy
    }

    fn apply(&mut self, write: StoreWrite) -> (done: Result<(), MissionError>)
        requires
            old(self).wf(),
        ensures
            final(self).wf(),
            final(self).next_id() == old(self).next_id(),
            done == write_reply(old(self)@, write),
            done is Ok ==> final(self)@ == write_effect(old(self)@, write),
            done is Err ==> final(self)@ == old(self)@,
    {
        match write {
            StoreWrite::InsertMember { row } => self.insert_membership(row),
            StoreWrite::DeleteMember { row } => {
                self.delete_membership(row);
                Ok(())
            },
            StoreWrite::SetStatus { mission_id, chief_id, status } => {
                match self.set_status(mission_id, chief_id, status) {
                    Ok(_) => Ok(()),
                    Err(e) => Err(e),
                }
            },
        }
    }

    /// Runs the unit of work `work` atomically: either every write takes
    /// effect, in order, or the first write that the store refuses gives the
    /// error and the store is as it was before the call.
    pub fn transaction(&mut self, work: &Vec<StoreWrite>) -> (done: Result<(), MissionError>)
        requires
            old(self).wf(),
        ensures
            final(self).wf(),
            final(self).next_id() == old(self).next_id(),
            match apply_writes(old(self)@, work@) {
                Ok(reached) => done == Ok::<(), MissionError>(()) && final(self)@ == reached,
                Err(e) => done == Err::<(), MissionError>(e) && final(self)@ == old(self)@,
            },
    {
        let saved = self.snapshot();
        let ghost start = self@;
        let mut i: usize = 0;
        while i < work.len()
            invariant
                i <= work@.len(),
                self.wf(),
                saved.wf(),
                saved@ == start,
                start == old(self)@,
                saved.next_id() == self.next_id(),
                self.next_id() == old(self).next_id(),
                apply_writes(start, work@.take(i as int)) == Ok::<Missions, MissionError>(self@),
            decreases work@.len() - i,
        {
            let ghost prefix = work@.take(i as int + 1);
            proof {
                assert(prefix.drop_last() =~= work@.take(i as int));
                assert(prefix.last() == work@[i as int]);
            }
            match self.apply(work[i]) {
                Ok(()) => {},
                Err(e) => {
                    proof {
                        assert(apply_writes(start, prefix) == Err::<Missions, MissionError>(e));
                        lemma_refusal_is_final(start, work@, i as int + 1);
                    }
                    *self = saved;
                    return Err(e);
                },
            }
            i = i + 1;
        }
        proof {
            assert(work@.take(i as int) =~= work@);
        }
        Ok(())
    }
}

/// Once a prefix of a unit of work is refused, the whole unit is refused
/// with the same error.
pub proof fn lemma_refusal_is_final(missions: Missions, work: Seq<StoreWrite>, n: int)
    requires
        0 <= n <= work.len(),
        apply_writes(missions, work.take(n)) is Err,
    ensures
        apply_writes(missions, work) == apply_writes(missions, work.take(n)),
    decreases work.len(),
{
    if n == work.len() {
        assert(work.take(n) =~= work);
    } else {
        assert(work.drop_last().take(n) =~= work.take(n));
        lemma_refusal_is_final(missions, work.drop_last(), n);
    }
}

} // verus!
