//! Application services over the repositories.
use vstd::prelude::*;
use crate::entity::Entity;
use crate::error::Error;
use crate::graph::{Identify, has_key};
use crate::experience::{Event, RawExperience, hydrated};
use crate::repository::{
    EntityFilter, EntityRepository, ExperienceAggregateReadGuard, ExperienceRepository,
    InMemoryEntityRepository, InMemoryEventRepository, InMemoryExperienceRepository,
};
use crate::resource::{after, delete_spec, index_of};

verus! {

/// The entity application: the entities behind one repository.
pub struct EntityApplication<EntityRepo> {
    pub entity_repo: EntityRepo,
}

/// The entity service over a repository.
pub struct EntityService<R> {
    pub entity_repo: R,
}

/// The removal of the first entity that matches a filter.
pub struct RemoveEntity {
    pub filter: EntityFilter,
}

impl<R: EntityRepository> EntityService<R> {
    /// Starts a removal; its filter matches every entity until one is set.
    pub fn remove(&self) -> (r: RemoveEntity)
        ensures
            r.filter.id is None,
            r.filter.name is None,
    {
        RemoveEntity { filter: EntityFilter::any() }
    }
}

impl RemoveEntity {
    pub fn with_filter(self, filter: EntityFilter) -> (r: Self)
        ensures
            r.filter == filter,
    {
        RemoveEntity { filter }
    }

    /// Removes from `repo` the first entity, in the order of the store, that matches the
    /// filter, and returns it; fails with `NotFound` if none does.
    pub fn execute<R: EntityRepository>(self, repo: &mut R) -> (r: Result<Entity, Error>)
        requires
            old(repo).wf(),
        ensures
            final(repo).wf(),
            ({
                let found = old(repo).records().filter(|e: Entity| self.filter.matches_spec(e));
                &&& found.len() == 0 ==> r == Err::<Entity, Error>(Error::NotFound) && final(repo).records()
                    == old(repo).records()
                &&& found.len() > 0 ==> r == Ok::<Entity, Error>(found[0]) && final(repo).records() == after(
                    old(repo).records(),
                    delete_spec(old(repo).records(), found[0].id.0),
                )
            }),
    {
        let found = repo.filter(&self.filter);
        if found.len() == 0 {
            return Err(Error::NotFound);
        }
        let entity = found[0].clone();
        proof {
            let s = repo.records();
            let f = |e: Entity| self.filter.matches_spec(e);
            assert(s.filter(f).contains(found@[0]));
            s.lemma_filter_contains_rev(f, found@[0]);
            let j = choose|j: int| 0 <= j < s.len() && s[j] == found@[0];
            assert(s[j].key() == entity.id.0);
        }
        match repo.delete(entity.id.0) {
            Ok(()) => Ok(entity),
            Err(e) => Err(e),
        }
    }
}

/// The experience application: experiences with the entities and events they reference.
pub struct ExperienceApplication {
    pub experience_repo: InMemoryExperienceRepository,
    pub entity_repo: InMemoryEntityRepository,
    pub event_repo: InMemoryEventRepository,
}

impl ExperienceApplication {
    pub fn new() -> (r: Self)
        ensures
            r.wf(),
            r.experience_repo.records() == Seq::<RawExperience>::empty(),
            r.entity_repo.records() == Seq::<Entity>::empty(),
            r.event_repo.events@ == Seq::<Event>::empty(),
    {
        ExperienceApplication {
            experience_repo: InMemoryExperienceRepository::new(),
            entity_repo: InMemoryEntityRepository::new(),
            event_repo: InMemoryEventRepository::new(),
        }
    }

    pub open spec fn wf(&self) -> bool {
        &&& self.experience_repo.wf()
        &&& self.entity_repo.wf()
        &&& self.event_repo.events.wf()
    }

    /// Reads the experience with identifier `id`, put together against the entities and
    /// events stored now; fails with `NotFound` if there is no such experience.
    pub fn find_experience(&self, id: u64) -> (r: Result<ExperienceAggregateReadGuard, Error>)
        requires
            self.wf(),
        ensures
            has_key(self.experience_repo.records(), id) ==> r is Ok && hydrated(
                self.experience_repo.records()[index_of(self.experience_repo.records(), id)],
                self.entity_repo.records(),
                self.event_repo.events@,
                r->Ok_0.data,
            ),
            !has_key(self.experience_repo.records(), id) ==> r is Err && r->Err_0 == Error::NotFound,
    {
        match self.experience_repo.find(id) {
            Ok(tx) => Ok(tx.read(&self.entity_repo, &self.event_repo)),
            Err(e) => Err(e),
        }
    }
}

} // verus!
