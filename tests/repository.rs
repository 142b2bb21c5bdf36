use plotline::constraint::Interval;
use plotline::entity::{Entity, EntityId, EntityName};
use plotline::error::Error;
use plotline::experience::{hydrate, Event, Experience, Profile, RawExperience, RawProfile};
use plotline::order::insert_sorted;
use plotline::repository::{
    EntityFilter, EntityRepository, ExperienceFilter, ExperienceRepository,
    InMemoryEntityRepository, InMemoryEventRepository, InMemoryExperienceRepository,
};
use plotline::resource::ResourceMap;
use plotline::service::{EntityService, RemoveEntity};

fn entity(id: u64, name: &str) -> Entity {
    Entity::with_id(EntityId(id), EntityName(name.to_string()))
}

fn event(id: u64, name: &str) -> Event {
    Event { id, name: name.to_string(), interval: Interval { lo: 1, hi: 2 } }
}

fn values(pairs: &[(&str, &str)]) -> Vec<(String, String)> {
    pairs.iter().map(|(k, v)| (k.to_string(), v.to_string())).collect()
}

fn experience(id: u64, entity: Entity, event: Event, profiles: Vec<Profile>) -> Experience {
    Experience { id, entity, event, profiles }
}

#[test]
fn create_after_delete_succeeds() {
    let mut repo = InMemoryEntityRepository::new();
    assert_eq!(repo.create(&entity(1, "a")), Ok(()));
    assert_eq!(repo.delete(1), Ok(()));
    assert_eq!(repo.create(&entity(1, "b")), Ok(()));
    assert_eq!(repo.find(1).map(|e| e.name.0), Ok("b".to_string()));
}

#[test]
fn create_twice_fails_with_already_exists() {
    let mut repo = InMemoryEntityRepository::new();
    assert_eq!(repo.create(&entity(1, "a")), Ok(()));
    assert_eq!(repo.create(&entity(1, "b")), Err(Error::AlreadyExists));
    assert_eq!(repo.find(1).map(|e| e.name.0), Ok("a".to_string()));
}

#[test]
fn delete_never_created_fails_with_not_found() {
    let mut repo = InMemoryEntityRepository::new();
    assert_eq!(repo.delete(3), Err(Error::NotFound));
    assert!(matches!(repo.find(3), Err(Error::NotFound)));
}

#[test]
fn resource_map_update() {
    let mut map: ResourceMap<Entity> = ResourceMap::new();
    assert_eq!(map.create(entity(1, "a")), Ok(()));
    assert_eq!(map.update(entity(1, "z")), Ok(()));
    assert_eq!(map.update(entity(2, "y")), Err(Error::NotFound));
    assert_eq!(map.values().len(), 1);
    assert_eq!(map.find(1).map(|e| e.name.0.clone()), Ok("z".to_string()));
}

#[test]
fn experience_create_twice_and_delete() {
    let mut repo = InMemoryExperienceRepository::new();
    let x = experience(1, entity(1, "e"), event(2, "v"), vec![]);
    assert_eq!(repo.create(&x), Ok(()));
    assert_eq!(repo.create(&x), Err(Error::AlreadyExists));
    assert_eq!(repo.delete(1), Ok(()));
    assert_eq!(repo.delete(1), Err(Error::NotFound));
    assert_eq!(repo.create(&x), Ok(()));
}

struct Store {
    entities: InMemoryEntityRepository,
    events: InMemoryEventRepository,
    experiences: InMemoryExperienceRepository,
}

fn scenario() -> Store {
    let mut entities = InMemoryEntityRepository::new();
    let mut events = InMemoryEventRepository::new();
    let mut experiences = InMemoryExperienceRepository::new();
    let e1 = entity(1, "E1");
    let v1 = event(100, "V1");
    assert_eq!(entities.create(&e1), Ok(()));
    assert_eq!(events.create(&v1), Ok(()));
    assert_eq!(experiences.create(&experience(1000, e1, v1, vec![])), Ok(()));
    Store { entities, events, experiences }
}

#[test]
fn read_experience_resolves_entity_and_event() {
    let store = scenario();
    let tx = store.experiences.find(1000).ok().unwrap();
    let guard = tx.read(&store.entities, &store.events);
    let x = guard.experience();
    assert_eq!(x.id, 1000);
    assert_eq!(x.entity.id, EntityId(1));
    assert_eq!(x.entity.name.0, "E1");
    assert_eq!(x.event.id, 100);
    assert_eq!(x.event.name, "V1");
    guard.release();
}

#[test]
fn read_experience_sees_current_entity() {
    let mut store = scenario();
    assert_eq!(store.entities.delete(1), Ok(()));
    assert_eq!(store.entities.create(&entity(1, "E1 renamed")), Ok(()));
    let tx = store.experiences.find(1000).ok().unwrap();
    let guard = tx.read(&store.entities, &store.events);
    assert_eq!(guard.experience().entity.name.0, "E1 renamed");
}

#[test]
fn read_after_entity_deleted_gives_placeholder() {
    let mut store = scenario();
    assert_eq!(store.entities.delete(1), Ok(()));
    let tx = store.experiences.find(1000).ok().unwrap();
    let guard = tx.read(&store.entities, &store.events);
    assert_eq!(guard.experience().entity.id, EntityId(1));
    assert_eq!(guard.experience().entity.name.0, "");
    assert_eq!(guard.experience().event.name, "V1");
}

#[test]
fn read_after_event_deleted_gives_placeholder() {
    let mut store = scenario();
    assert_eq!(store.events.delete(100), Ok(()));
    let tx = store.experiences.find(1000).ok().unwrap();
    let guard = tx.read(&store.entities, &store.events);
    assert_eq!(guard.experience().event.id, 100);
    assert_eq!(guard.experience().event.name, "");
    assert_eq!(guard.experience().event.interval, Interval { lo: 0, hi: 0 });
}

#[test]
fn find_missing_experience_fails() {
    let store = scenario();
    assert!(matches!(store.experiences.find(5), Err(Error::NotFound)));
}

#[test]
fn referenced_ids_are_ascending_and_unique() {
    let raw = RawExperience {
        id: 1,
        entity: 7,
        event: 3,
        profiles: vec![
            RawProfile { entity: 5, values: vec![] },
            RawProfile { entity: 2, values: vec![] },
            RawProfile { entity: 5, values: vec![] },
            RawProfile { entity: 9, values: vec![] },
        ],
    };
    assert_eq!(raw.referenced_ids(), vec![2, 5, 7, 9]);
    let other = RawExperience {
        id: 2,
        entity: 9,
        event: 3,
        profiles: vec![
            RawProfile { entity: 2, values: vec![] },
            RawProfile { entity: 7, values: vec![] },
            RawProfile { entity: 5, values: vec![] },
        ],
    };
    assert_eq!(other.referenced_ids(), raw.referenced_ids());
}

#[test]
fn insert_sorted_keeps_set() {
    let mut v: Vec<u64> = vec![];
    for k in [4u64, 1, 4, 9, 0, 1] {
        insert_sorted(&mut v, k);
    }
    assert_eq!(v, vec![0, 1, 4, 9]);
}

#[test]
fn hydrate_resolves_profiles() {
    let mut entities = InMemoryEntityRepository::new();
    assert_eq!(entities.create(&entity(2, "two")), Ok(()));
    let events = InMemoryEventRepository::new();
    let raw = RawExperience {
        id: 1,
        entity: 2,
        event: 3,
        profiles: vec![
            RawProfile { entity: 2, values: values(&[("k", "v")]) },
            RawProfile { entity: 8, values: vec![] },
        ],
    };
    let x = hydrate(&raw, &entities.entities, &events.events);
    assert_eq!(x.entity.name.0, "two");
    assert_eq!(x.profiles.len(), 2);
    assert_eq!(x.profiles[0].entity.name.0, "two");
    assert_eq!(x.profiles[0].values, values(&[("k", "v")]));
    assert_eq!(x.profiles[1].entity.id, EntityId(8));
    assert_eq!(x.profiles[1].entity.name.0, "");
    assert_eq!(x.event.id, 3);
}

#[test]
fn raw_projection_keeps_identifiers() {
    let x = experience(
        4,
        entity(1, "a"),
        event(2, "b"),
        vec![Profile { entity: entity(3, "c"), values: values(&[("x", "y")]) }],
    );
    let raw = RawExperience::from_experience(&x);
    assert_eq!(raw.id, 4);
    assert_eq!(raw.entity, 1);
    assert_eq!(raw.event, 2);
    assert_eq!(raw.profiles.len(), 1);
    assert_eq!(raw.profiles[0].entity, 3);
    assert_eq!(raw.profiles[0].values, values(&[("x", "y")]));
}

#[test]
fn write_guard_commit_stores_values() {
    let mut entities = InMemoryEntityRepository::new();
    assert_eq!(entities.create(&entity(1, "a")), Ok(()));
    let events = InMemoryEventRepository::new();
    let mut repo = InMemoryExperienceRepository::new();
    let x = experience(
        9,
        entity(1, "a"),
        event(2, "b"),
        vec![Profile { entity: entity(1, "a"), values: values(&[("k", "old")]) }],
    );
    assert_eq!(repo.create(&x), Ok(()));
    let mut guard = repo.find(9).ok().unwrap().write(&entities, &events);
    guard.set_values(0, values(&[("k", "new")]));
    assert_eq!(guard.experience().profiles[0].values, values(&[("k", "new")]));
    assert_eq!(guard.commit(&mut repo), Ok(()));
    let tx = repo.find(9).ok().unwrap();
    assert_eq!(tx.experience.profiles[0].values, values(&[("k", "new")]));
    assert_eq!(tx.experience.profiles[0].entity, 1);
}

#[test]
fn write_guard_rollback_keeps_values() {
    let entities = InMemoryEntityRepository::new();
    let events = InMemoryEventRepository::new();
    let mut repo = InMemoryExperienceRepository::new();
    let x = experience(
        9,
        entity(1, "a"),
        event(2, "b"),
        vec![Profile { entity: entity(1, "a"), values: values(&[("k", "old")]) }],
    );
    assert_eq!(repo.create(&x), Ok(()));
    let mut guard = repo.find(9).ok().unwrap().write(&entities, &events);
    guard.set_values(0, values(&[("k", "new")]));
    guard.rollback();
    let tx = repo.find(9).ok().unwrap();
    assert_eq!(tx.experience.profiles[0].values, values(&[("k", "old")]));
}

#[test]
fn commit_after_delete_fails() {
    let entities = InMemoryEntityRepository::new();
    let events = InMemoryEventRepository::new();
    let mut repo = InMemoryExperienceRepository::new();
    assert_eq!(repo.create(&experience(9, entity(1, "a"), event(2, "b"), vec![])), Ok(()));
    let guard = repo.find(9).ok().unwrap().write(&entities, &events);
    assert_eq!(repo.delete(9), Ok(()));
    assert_eq!(guard.commit(&mut repo), Err(Error::NotFound));
}

#[test]
fn experience_filter_matches_set_fields() {
    let mut repo = InMemoryExperienceRepository::new();
    assert_eq!(repo.create(&experience(1, entity(1, "a"), event(10, "x"), vec![])), Ok(()));
    assert_eq!(repo.create(&experience(2, entity(2, "b"), event(10, "x"), vec![])), Ok(()));
    assert_eq!(repo.create(&experience(3, entity(1, "a"), event(11, "y"), vec![])), Ok(()));
    let all = repo.filter(&ExperienceFilter { id: None, entity: None, event: None });
    assert_eq!(all.len(), 3);
    let by_entity = repo.filter(&ExperienceFilter { id: None, entity: Some(1), event: None });
    let ids: Vec<u64> = by_entity.iter().map(|a| a.experience.id).collect();
    assert_eq!(ids, vec![1, 3]);
    let by_both = repo.filter(&ExperienceFilter { id: None, entity: Some(1), event: Some(10) });
    assert_eq!(by_both.len(), 1);
    assert_eq!(by_both[0].experience.id, 1);
    let none = repo.filter(&ExperienceFilter { id: Some(2), entity: Some(1), event: None });
    assert!(none.is_empty());
}

#[test]
fn entity_filter_by_name() {
    let mut repo = InMemoryEntityRepository::new();
    assert_eq!(repo.create(&entity(1, "a")), Ok(()));
    assert_eq!(repo.create(&entity(2, "b")), Ok(()));
    assert_eq!(repo.create(&entity(3, "a")), Ok(()));
    let found = repo.filter(&EntityFilter { id: None, name: Some("a".to_string()) });
    let ids: Vec<EntityId> = found.iter().map(|e| e.id).collect();
    assert_eq!(ids, vec![EntityId(1), EntityId(3)]);
    assert_eq!(repo.filter(&EntityFilter::any()).len(), 3);
}

#[test]
fn remove_entity_by_filter() {
    let mut service = EntityService { entity_repo: InMemoryEntityRepository::new() };
    assert_eq!(service.entity_repo.create(&entity(1, "a")), Ok(()));
    assert_eq!(service.entity_repo.create(&entity(2, "b")), Ok(()));
    let removal: RemoveEntity = service
        .remove()
        .with_filter(EntityFilter { id: None, name: Some("b".to_string()) });
    let removed = removal.execute(&mut service.entity_repo);
    assert_eq!(removed.map(|e| e.id), Ok(EntityId(2)));
    assert!(matches!(service.entity_repo.find(2), Err(Error::NotFound)));
    let again = service
        .remove()
        .with_filter(EntityFilter { id: None, name: Some("b".to_string()) })
        .execute(&mut service.entity_repo);
    assert!(matches!(again, Err(Error::NotFound)));
    assert!(service.entity_repo.find(1).is_ok());
}

#[test]
fn entity_new_keeps_name_and_draws_ids() {
    let a = Entity::new(EntityName("a".to_string()));
    let b = Entity::new(EntityName("b".to_string()));
    assert_eq!(a.name().0, "a");
    assert_eq!(b.name().0, "b");
    assert_ne!(a.id, b.id);
}

#[test]
fn entity_placeholder_is_empty() {
    let e = Entity::placeholder(5);
    assert_eq!(e.id, EntityId(5));
    assert_eq!(e.name.0, "");
}

#[test]
fn entities_are_equal_by_id() {
    assert!(entity(1, "a") == entity(1, "b"));
    assert!(entity(1, "a") != entity(2, "a"));
}
