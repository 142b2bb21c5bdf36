//! In-memory repositories of entities, events and experiences, and the transactional
//! handles over experiences.
use vstd::prelude::*;
use crate::entity::Entity;
use crate::error::Error;
use crate::experience::{
    Event, Experience, RawExperience, hydrate, hydrated, projected,
};
use crate::graph::{Identify, has_key, keys_unique};
use crate::resource::{ResourceMap, after, create_spec, delete_spec, index_of, unit_of};

verus! {

/// A query over entities; an unset field matches every entity.
pub struct EntityFilter {
    pub id: Option<u64>,
    pub name: Option<String>,
}

impl EntityFilter {
    /// The filter that matches every entity.
    pub fn any() -> (r: Self)
        ensures
            r.id is None,
            r.name is None,
    {
        EntityFilter { id: None, name: None }
    }

    pub open spec fn matches_spec(&self, e: Entity) -> bool {
        &&& (self.id matches Some(id) ==> e.id.0 == id)
        &&& (self.name matches Some(n) ==> e.name.0@ == n@)
    }

    /// Whether `e` has every field that is set in the filter.
    pub fn matches(&self, e: &Entity) -> (r: bool)
        ensures
            r == self.matches_spec(*e),
    {
        if let Some(id) = self.id {
            if id != e.id.0 {
                return false;
            }
        }
        if let Some(n) = &self.name {
            if !(*n == e.name.0) {
                return false;
            }
        }
        true
    }
}

/// A store of entities.
pub trait EntityRepository {
    /// The stored entities.
    spec fn records(&self) -> Seq<Entity>;

    open spec fn wf(&self) -> bool {
        keys_unique(self.records())
    }

    /// The entity with identifier `id`; fails with `NotFound` if there is none.
    fn find(&self, id: u64) -> (r: Result<Entity, Error>)
        requires
            self.wf(),
        ensures
            has_key(self.records(), id) ==> r == Ok::<Entity, Error>(
                self.records()[index_of(self.records(), id)],
            ),
            !has_key(self.records(), id) ==> r == Err::<Entity, Error>(Error::NotFound),
    ;

    /// Every stored entity that matches `filter`, in the order of the store.
    fn filter(&self, filter: &EntityFilter) -> (r: Vec<Entity>)
        requires
            self.wf(),
        ensures
            r@ == self.records().filter(|e: Entity| filter.matches_spec(e)),
    ;

    /// Stores a copy of `entity`; fails with `AlreadyExists` if its identifier is in use.
    fn create(&mut self, entity: &Entity) -> (r: Result<(), Error>)
        requires
            old(self).wf(),
        ensures
            final(self).wf(),
            final(self).records() == after(old(self).records(), create_spec(old(self).records(), *entity)),
            r == unit_of(create_spec(old(self).records(), *entity)),
    ;

    /// Removes the entity with identifier `id`; fails with `NotFound` if there is none.
    fn delete(&mut self, id: u64) -> (r: Result<(), Error>)
        requires
            old(self).wf(),
        ensures
            final(self).wf(),
            final(self).records() == after(old(self).records(), delete_spec(old(self).records(), id)),
            r == unit_of(delete_spec(old(self).records(), id)),
    ;
}

/// Entities kept in memory.
pub struct InMemoryEntityRepository {
    pub entities: ResourceMap<Entity>,
}

impl InMemoryEntityRepository {
    pub fn new() -> (r: Self)
        ensures
            r.wf(),
            r.records() == Seq::<Entity>::empty(),
    {
        InMemoryEntityRepository { entities: ResourceMap::new() }
    }
}

impl EntityRepository for InMemoryEntityRepository {
    open spec fn records(&self) -> Seq<Entity> {
        self.entities@
    }

    fn find(&self, id: u64) -> (r: Result<Entity, Error>) {
        match self.entities.find(id) {
            Ok(e) => Ok(e.clone()),
            Err(e) => Err(e),
        }
    }

    fn filter(&self, filter: &EntityFilter) -> (r: Vec<Entity>) {
        let all = self.entities.values();
        let mut r: Vec<Entity> = Vec::new();
        let mut i: usize = 0;
        while i < all.len()
            invariant
                i <= all@.len(),
                all@ == self.entities@,
                r@ == all@.subrange(0, i as int).filter(|e: Entity| filter.matches_spec(e)),
            decreases all@.len() - i,
        {
            proof {
                let f = |e: Entity| filter.matches_spec(e);
                assert(all@.subrange(0, i + 1) =~= all@.subrange(0, i as int).push(all@[i as int]));
                all@.subrange(0, i as int).lemma_filter_push(all@[i as int], f);
            }
            if filter.matches(&all[i]) {
                r.push(all[i].clone());
            }
            i = i + 1;
        }
        assert(all@.subrange(0, all@.len() as int) =~= all@);
        r
    }

    fn create(&mut self, entity: &Entity) -> (r: Result<(), Error>) {
        self.entities.create(entity.clone())
    }

    fn delete(&mut self, id: u64) -> (r: Result<(), Error>) {
        self.entities.delete(id)
    }
}

/// Events kept in memory.
pub struct InMemoryEventRepository {
    pub events: ResourceMap<Event>,
}

impl InMemoryEventRepository {
    pub fn new() -> (r: Self)
        ensures
            r.events.wf(),
            r.events@ == Seq::<Event>::empty(),
    {
        InMemoryEventRepository { events: ResourceMap::new() }
    }

    /// Stores a copy of `event`; fails with `AlreadyExists` if its identifier is in use.
    pub fn create(&mut self, event: &Event) -> (r: Result<(), Error>)
        requires
            old(self).events.wf(),
        ensures
            final(self).events.wf(),
            final(self).events@ == after(old(self).events@, create_spec(old(self).events@, *event)),
            r == unit_of(create_spec(old(self).events@, *event)),
    {
        self.events.create(event.clone())
    }

    /// Removes the event with identifier `id`; fails with `NotFound` if there is none.
    pub fn delete(&mut self, id: u64) -> (r: Result<(), Error>)
        requires
            old(self).events.wf(),
        ensures
            final(self).events.wf(),
            final(self).events@ == after(old(self).events@, delete_spec(old(self).events@, id)),
            r == unit_of(delete_spec(old(self).events@, id)),
    {
        self.events.delete(id)
    }
}

/// A query over raw experiences; an unset field matches every record.
pub struct ExperienceFilter {
    pub id: Option<u64>,
    pub entity: Option<u64>,
    pub event: Option<u64>,
}

impl ExperienceFilter {
    pub open spec fn matches_spec(&self, x: RawExperience) -> bool {
        &&& (self.id matches Some(id) ==> x.id == id)
        &&& (self.entity matches Some(e) ==> x.entity == e)
        &&& (self.event matches Some(v) ==> x.event == v)
    }

    /// Whether `x` has every field that is set in the filter; the first field that
    /// differs rejects it.
    pub fn matches(&self, x: &RawExperience) -> (r: bool)
        ensures
            r == self.matches_spec(*x),
    {
        if let Some(id) = self.id {
            if id != x.id {
                return false;
            }
        }
        if let Some(e) = self.entity {
            if e != x.entity {
                return false;
            }
        }
        if let Some(v) = self.event {
            if v != x.event {
                return false;
            }
        }
        true
    }
}

/// A transactional handle over one stored experience.
pub struct ExperienceAggregate<'a> {
    pub experience: &'a RawExperience,
}

/// Shared access to an experience, put together when the guard was taken.
pub struct ExperienceAggregateReadGuard {
    pub data: Experience,
}

/// Exclusive access to an experience: its values may change, and the guard ends by
/// `commit`, which stores them, or `rollback`, which drops them.
pub struct ExperienceAggregateWriteGuard {
    data: Experience,
}

impl<'a> ExperienceAggregate<'a> {
    /// Puts the experience together against the current entities and events.
    pub fn read(
        &self,
        entities: &InMemoryEntityRepository,
        events: &InMemoryEventRepository,
    ) -> (r: ExperienceAggregateReadGuard)
        requires
            entities.wf(),
            events.events.wf(),
        ensures
            hydrated(*self.experience, entities.records(), events.events@, r.data),
    {
        ExperienceAggregateReadGuard { data: hydrate(self.experience, &entities.entities, &events.events) }
    }

    /// Puts the experience together against the current entities and events, for change.
    pub fn write(
        &self,
        entities: &InMemoryEntityRepository,
        events: &InMemoryEventRepository,
    ) -> (r: ExperienceAggregateWriteGuard)
        requires
            entities.wf(),
            events.events.wf(),
        ensures
            hydrated(*self.experience, entities.records(), events.events@, r.data_spec()),
    {
        ExperienceAggregateWriteGuard { data: hydrate(self.experience, &entities.entities, &events.events) }
    }
}

impl ExperienceAggregateReadGuard {
    /// The experience behind the guard.
    pub fn experience(&self) -> (r: &Experience)
        ensures
            *r == self.data,
    {
        &self.data
    }

    /// Gives up the access.
    pub fn release(self) {
    }
}

impl ExperienceAggregateWriteGuard {
    pub closed spec fn data_spec(&self) -> Experience {
        self.data
    }

    /// The experience behind the guard.
    pub fn experience(&self) -> (r: &Experience)
        ensures
            *r == self.data_spec(),
    {
        &self.data
    }

    /// Replaces the values of the profile at `i`; nothing else of the experience can
    /// change through the guard.
    pub fn set_values(&mut self, i: usize, values: Vec<(String, String)>)
        requires
            i < old(self).data_spec().profiles@.len(),
        ensures
            final(self).data_spec().id == old(self).data_spec().id,
            final(self).data_spec().entity == old(self).data_spec().entity,
            final(self).data_spec().event == old(self).data_spec().event,
            final(self).data_spec().profiles@.len() == old(self).data_spec().profiles@.len(),
            final(self).data_spec().profiles@[i as int].entity == old(self).data_spec().profiles@[i as int].entity,
            final(self).data_spec().profiles@[i as int].values@ == values@,
            forall|j: int|
                0 <= j < old(self).data_spec().profiles@.len() && j != i ==> (#[trigger] final(self).data_spec().profiles@[j])
                    == old(self).data_spec().profiles@[j],
    {
        self.data.profiles[i].values = values;
        assert forall|j: int|
            0 <= j < old(self).data_spec().profiles@.len() && j != i implies (#[trigger] self.data.profiles@[j])
                == old(self).data_spec().profiles@[j] by {
        }
    }

    /// Stores the experience, in its raw form, in place of the record it was read from;
    /// fails with `NotFound` if that record is gone.
    pub fn commit(self, repo: &mut InMemoryExperienceRepository) -> (r: Result<(), Error>)
        requires
            old(repo).wf(),
        ensures
            final(repo).wf(),
            has_key(old(repo).records(), self.data_spec().id) ==> r is Ok && exists|raw: RawExperience|
                projected(self.data_spec(), raw) && final(repo).records() == old(repo).records().update(
                    index_of(old(repo).records(), self.data_spec().id),
                    raw,
                ),
            !has_key(old(repo).records(), self.data_spec().id) ==> r == Err::<(), Error>(Error::NotFound)
                && final(repo).records() == old(repo).records(),
    {
        let raw = RawExperience::from_experience(&self.data);
        repo.experiences.update(raw)
    }

    /// Gives up the access and drops the changes.
    pub fn rollback(self) {
    }
}

/// A store of experiences, handing out transactional handles.
pub trait ExperienceRepository {
    /// The stored raw experiences.
    spec fn records(&self) -> Seq<RawExperience>;

    open spec fn wf(&self) -> bool {
        keys_unique(self.records())
    }

    /// The handle over the experience with identifier `id`; fails with `NotFound` if
    /// there is none.
    fn find(&self, id: u64) -> (r: Result<ExperienceAggregate<'_>, Error>)
        requires
            self.wf(),
        ensures
            has_key(self.records(), id) ==> r is Ok && *r->Ok_0.experience == self.records()[index_of(
                self.records(),
                id,
            )],
            !has_key(self.records(), id) ==> r is Err && r->Err_0 == Error::NotFound,
    ;

    /// The handles over every stored experience that matches `filter`, in the order of
    /// the store.
    fn filter(&self, filter: &ExperienceFilter) -> (r: Vec<ExperienceAggregate<'_>>)
        requires
            self.wf(),
        ensures
            r@.map_values(|a: ExperienceAggregate| *a.experience) == self.records().filter(
                |x: RawExperience| filter.matches_spec(x),
            ),
    ;

    /// Stores the raw form of `experience`; fails with `AlreadyExists` if its identifier
    /// is in use.
    fn create(&mut self, experience: &Experience) -> (r: Result<(), Error>)
        requires
            old(self).wf(),
        ensures
            final(self).wf(),
            has_key(old(self).records(), experience.id) ==> r == Err::<(), Error>(Error::AlreadyExists)
                && final(self).records() == old(self).records(),
            !has_key(old(self).records(), experience.id) ==> r is Ok && final(self).records().len()
                == old(self).records().len() + 1 && final(self).records().drop_last() == old(self).records()
                && projected(*experience, final(self).records().last()),
    ;

    /// Removes the experience with identifier `id`; fails with `NotFound` if there is none.
    fn delete(&mut self, id: u64) -> (r: Result<(), Error>)
        requires
            old(self).wf(),
        ensures
            final(self).wf(),
            final(self).records() == after(old(self).records(), delete_spec(old(self).records(), id)),
            r == unit_of(delete_spec(old(self).records(), id)),
    ;
}

/// Raw experiences kept in memory.
pub struct InMemoryExperienceRepository {
    pub experiences: ResourceMap<RawExperience>,
}

impl InMemoryExperienceRepository {
    pub fn new() -> (r: Self)
        ensures
            r.wf(),
            r.records() == Seq::<RawExperience>::empty(),
    {
        InMemoryExperienceRepository { experiences: ResourceMap::new() }
    }
}

impl ExperienceRepository for InMemoryExperienceRepository {
    open spec fn records(&self) -> Seq<RawExperience> {
        self.experiences@
    }

    fn find(&self, id: u64) -> (r: Result<ExperienceAggregate<'_>, Error>) {
        match self.experiences.find(id) {
            Ok(x) => Ok(ExperienceAggregate { experience: x }),
            Err(e) => Err(e),
        }
    }

    fn filter(&self, filter: &ExperienceFilter) -> (r: Vec<ExperienceAggregate<'_>>) {
        let all = self.experiences.values();
        let mut r: Vec<ExperienceAggregate<'_>> = Vec::new();
        let mut i: usize = 0;
        while i < all.len()
            invariant
                i <= all@.len(),
                all@ == self.experiences@,
                r@.map_values(|a: ExperienceAggregate| *a.experience) == all@.subrange(0, i as int).filter(
                    |x: RawExperience| filter.matches_spec(x),
                ),
            decreases all@.len() - i,
        {
            proof {
                let f = |x: RawExperience| filter.matches_spec(x);
                assert(all@.subrange(0, i + 1) =~= all@.subrange(0, i as int).push(all@[i as int]));
                all@.subrange(0, i as int).lemma_filter_push(all@[i as int], f);
            }
            let ghost before = r@;
            if filter.matches(&all[i]) {
                r.push(ExperienceAggregate { experience: &all[i] });
                assert(r@.map_values(|a: ExperienceAggregate| *a.experience) =~= before.map_values(
                    |a: ExperienceAggregate| *a.experience,
                ).push(all@[i as int]));
            }
            i = i + 1;
        }
        assert(all@.subrange(0, all@.len() as int) =~= all@);
        r
    }

    fn create(&mut self, experience: &Experience) -> (r: Result<(), Error>) {
        let raw = RawExperience::from_experience(experience);
        let r = self.experiences.create(raw);
        proof {
            if !has_key(old(self).records(), experience.id) {
                assert(self.records().drop_last() =~= old(self).records());
            }
        }
        r
    }

    fn delete(&mut self, id: u64) -> (r: Result<(), Error>) {
        self.experiences.delete(id)
    }
}

} // verus!
