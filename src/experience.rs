//! Experiences: an entity experiencing an event, with profiles of other entities.
use vstd::prelude::*;
use crate::constraint::Interval;
use crate::entity::{Entity, is_placeholder_entity};
use crate::graph::{Identify, has_key};
use crate::order::{insert_sorted, lemma_ascending_order_is_canonical, strictly_ascending};
use crate::resource::{ResourceMap, index_of};

verus! {

/// Something that happens during an interval of time.
#[derive(Debug)]
pub struct Event {
    pub id: u64,
    pub name: String,
    pub interval: Interval,
}

impl Clone for Event {
    fn clone(&self) -> (r: Self)
        ensures
            r == *self,
    {
        Event { id: self.id, name: self.name.clone(), interval: self.interval }
    }
}

impl Identify for Event {
    open spec fn key(&self) -> u64 {
        self.id
    }

    fn id(&self) -> (r: u64) {
        self.id
    }
}

/// Whether `e` is the stand-in for a missing event with identifier `id`: it carries
/// the identifier, an empty name and the empty interval at the origin.
pub open spec fn is_placeholder_event(e: Event, id: u64) -> bool {
    e.id == id && e.name@ == Seq::<char>::empty() && e.interval == Interval { lo: 0, hi: 0 }
}

impl Event {
    /// The stand-in for a missing event with identifier `id`.
    pub fn placeholder(id: u64) -> (r: Self)
        ensures
            is_placeholder_event(r, id),
    {
        Event { id, name: String::new(), interval: Interval { lo: 0, hi: 0 } }
    }
}

/// A copy of the field-name to value pairs of a profile.
pub fn clone_values(v: &Vec<(String, String)>) -> (r: Vec<(String, String)>)
    ensures
        r@ == v@,
{
    let mut r: Vec<(String, String)> = Vec::new();
    let mut i: usize = 0;
    while i < v.len()
        invariant
            i <= v@.len(),
            r@ == v@.subrange(0, i as int),
        decreases v@.len() - i,
    {
        let (a, b) = &v[i];
        r.push((a.clone(), b.clone()));
        assert(r@ =~= v@.subrange(0, i + 1));
        i = i + 1;
    }
    assert(r@ =~= v@);
    r
}

/// The stored form of a profile: the entity it is about, by identifier, and its values.
#[derive(Debug)]
pub struct RawProfile {
    pub entity: u64,
    pub values: Vec<(String, String)>,
}

/// The stored form of an experience: every reference is an identifier.
#[derive(Debug)]
pub struct RawExperience {
    pub id: u64,
    pub entity: u64,
    pub event: u64,
    pub profiles: Vec<RawProfile>,
}

impl Identify for RawExperience {
    open spec fn key(&self) -> u64 {
        self.id
    }

    fn id(&self) -> (r: u64) {
        self.id
    }
}

/// A mapping from field name to value, attributed to an entity.
#[derive(Debug)]
pub struct Profile {
    pub entity: Entity,
    pub values: Vec<(String, String)>,
}

/// An entity experiencing an event, with the profiles it holds.
#[derive(Debug)]
pub struct Experience {
    pub id: u64,
    pub entity: Entity,
    pub event: Event,
    pub profiles: Vec<Profile>,
}

/// Whether `e` is what the identifier `id` resolves to in the stored entities
/// `store`: the stored entity, or the placeholder where none is stored.
pub open spec fn resolved_entity(store: Seq<Entity>, id: u64, e: Entity) -> bool {
    if has_key(store, id) {
        e == store[index_of(store, id)]
    } else {
        is_placeholder_entity(e, id)
    }
}

/// Whether `e` is what the identifier `id` resolves to in the stored events `store`.
pub open spec fn resolved_event(store: Seq<Event>, id: u64, e: Event) -> bool {
    if has_key(store, id) {
        e == store[index_of(store, id)]
    } else {
        is_placeholder_event(e, id)
    }
}

/// Whether the raw experience references the entity `x`, as its subject or through
/// one of its profiles.
pub open spec fn referenced(raw: RawExperience, x: u64) -> bool {
    x == raw.entity || exists|i: int|
        0 <= i < raw.profiles@.len() && (#[trigger] raw.profiles@[i]).entity == x
}

/// Whether `x` is the experience that `raw` stands for, given the stored entities and
/// events: every reference resolved against the stores, the values as stored.
pub open spec fn hydrated(
    raw: RawExperience,
    entities: Seq<Entity>,
    events: Seq<Event>,
    x: Experience,
) -> bool {
    &&& x.id == raw.id
    &&& resolved_entity(entities, raw.entity, x.entity)
    &&& resolved_event(events, raw.event, x.event)
    &&& x.profiles@.len() == raw.profiles@.len()
    &&& forall|i: int|
        0 <= i < raw.profiles@.len() ==> {
            &&& resolved_entity(entities, (#[trigger] raw.profiles@[i]).entity, x.profiles@[i].entity)
            &&& x.profiles@[i].values@ == raw.profiles@[i].values@
        }
}

/// Whether `raw` is the stored form of `x`: each entity and event by its identifier,
/// the values as they are.
pub open spec fn projected(x: Experience, raw: RawExperience) -> bool {
    &&& raw.id == x.id
    &&& raw.entity == x.entity.id.0
    &&& raw.event == x.event.id
    &&& raw.profiles@.len() == x.profiles@.len()
    &&& forall|i: int|
        0 <= i < x.profiles@.len() ==> {
            &&& (#[trigger] raw.profiles@[i]).entity == x.profiles@[i].entity.id.0
            &&& raw.profiles@[i].values@ == x.profiles@[i].values@
        }
}

impl RawExperience {
    /// The stored form of the experience `x`.
    pub fn from_experience(x: &Experience) -> (r: RawExperience)
        ensures
            projected(*x, r),
    {
        let mut profiles: Vec<RawProfile> = Vec::new();
        let mut i: usize = 0;
        while i < x.profiles.len()
            invariant
                i <= x.profiles@.len(),
                profiles@.len() == i,
                forall|j: int|
                    0 <= j < i ==> {
                        &&& (#[trigger] profiles@[j]).entity == x.profiles@[j].entity.id.0
                        &&& profiles@[j].values@ == x.profiles@[j].values@
                    },
            decreases x.profiles@.len() - i,
        {
            let p = &x.profiles[i];
            profiles.push(RawProfile { entity: p.entity.id.0, values: clone_values(&p.values) });
            i = i + 1;
        }
        RawExperience { id: x.id, entity: x.entity.id.0, event: x.event.id, profiles }
    }

    /// Every entity the record references, each once, in ascending order: the order in
    /// which they are resolved.
    pub fn referenced_ids(&self) -> (r: Vec<u64>)
        ensures
            strictly_ascending(r@),
            forall|x: u64| r@.contains(x) <==> referenced(*self, x),
    {
        let mut ids: Vec<u64> = Vec::new();
        insert_sorted(&mut ids, self.entity);
        let mut i: usize = 0;
        while i < self.profiles.len()
            invariant
                i <= self.profiles@.len(),
                strictly_ascending(ids@),
                forall|x: u64|
                    ids@.contains(x) <==> (x == self.entity || exists|j: int|
                        0 <= j < i && (#[trigger] self.profiles@[j]).entity == x),
            decreases self.profiles@.len() - i,
        {
            let ghost before = ids@;
            insert_sorted(&mut ids, self.profiles[i].entity);
            assert forall|x: u64|
                ids@.contains(x) <==> (x == self.entity || exists|j: int|
                    0 <= j < i + 1 && (#[trigger] self.profiles@[j]).entity == x) by {
                if x == self.profiles@[i as int].entity {
                    assert(0 <= i < i + 1);
                }
                if exists|j: int| 0 <= j < i + 1 && (#[trigger] self.profiles@[j]).entity == x {
                    let j = choose|j: int| 0 <= j < i + 1 && (#[trigger] self.profiles@[j]).entity == x;
                    if j < i {
                        assert(before.contains(x));
                    }
                }
            }
            i = i + 1;
        }
        ids
    }
}

/// The entity stored under `id`, or the placeholder where none is.
fn resolve_entity(store: &ResourceMap<Entity>, id: u64) -> (r: Entity)
    requires
        store.wf(),
    ensures
        resolved_entity(store@, id, r),
{
    match store.find(id) {
        Ok(e) => e.clone(),
        Err(_) => Entity::placeholder(id),
    }
}

/// The event stored under `id`, or the placeholder where none is.
fn resolve_event(store: &ResourceMap<Event>, id: u64) -> (r: Event)
    requires
        store.wf(),
    ensures
        resolved_event(store@, id, r),
{
    match store.find(id) {
        Ok(e) => e.clone(),
        Err(_) => Event::placeholder(id),
    }
}

/// Resolves each identifier of `ids` in turn, in the order given.
fn resolve_entities(store: &ResourceMap<Entity>, ids: &Vec<u64>) -> (r: Vec<Entity>)
    requires
        store.wf(),
    ensures
        r@.len() == ids@.len(),
        forall|i: int|
            0 <= i < ids@.len() ==> resolved_entity(store@, ids@[i], #[trigger] r@[i])
                && r@[i].id.0 == ids@[i],
{
    let mut r: Vec<Entity> = Vec::new();
    let mut i: usize = 0;
    while i < ids.len()
        invariant
            store.wf(),
            i <= ids@.len(),
            r@.len() == i,
            forall|j: int|
                0 <= j < i ==> resolved_entity(store@, ids@[j], #[trigger] r@[j]) && r@[j].id.0
                    == ids@[j],
        decreases ids@.len() - i,
    {
        let e = resolve_entity(store, ids[i]);
        proof {
            if has_key(store@, ids@[i as int]) {
                let k = ids@[i as int];
                let j = index_of(store@, k);
                assert(store@[j].key() == k);
            }
        }
        r.push(e);
        i = i + 1;
    }
    r
}

/// The entity of `entities` with identifier `id`, or the placeholder where none has it.
fn find_or_default(entities: &Vec<Entity>, id: u64) -> (r: Entity)
    ensures
        (exists|j: int| 0 <= j < entities@.len() && entities@[j].id.0 == id && r == entities@[j])
            || (is_placeholder_entity(r, id) && forall|j: int|
            0 <= j < entities@.len() ==> (#[trigger] entities@[j]).id.0 != id),
{
    let mut i: usize = 0;
    while i < entities.len()
        invariant
            i <= entities@.len(),
            forall|j: int| 0 <= j < i ==> (#[trigger] entities@[j]).id.0 != id,
        decreases entities@.len() - i,
    {
        if entities[i].id.0 == id {
            return entities[i].clone();
        }
        i = i + 1;
    }
    Entity::placeholder(id)
}

/// Puts the experience together from its raw record, its event and the entities it
/// references, resolved in the order of `ids`.
fn compose(
    raw: &RawExperience,
    event: Event,
    ids: &Vec<u64>,
    entities: &Vec<Entity>,
    Ghost(entity_store): Ghost<Seq<Entity>>,
    Ghost(event_store): Ghost<Seq<Event>>,
) -> (r: Experience)
    requires
        strictly_ascending(ids@),
        forall|x: u64| ids@.contains(x) <==> referenced(*raw, x),
        entities@.len() == ids@.len(),
        forall|i: int|
            0 <= i < ids@.len() ==> resolved_entity(entity_store, ids@[i], #[trigger] entities@[i])
                && entities@[i].id.0 == ids@[i],
        resolved_event(event_store, raw.event, event),
    ensures
        hydrated(*raw, entity_store, event_store, r),
{
    let entity = find_or_default(entities, raw.entity);
    proof {
        assert(referenced(*raw, raw.entity));
        lemma_found_is_resolved(raw.entity, ids@, entities@, entity, entity_store);
    }
    let mut profiles: Vec<Profile> = Vec::new();
    let mut i: usize = 0;
    while i < raw.profiles.len()
        invariant
            i <= raw.profiles@.len(),
            profiles@.len() == i,
            strictly_ascending(ids@),
            forall|x: u64| ids@.contains(x) <==> referenced(*raw, x),
            entities@.len() == ids@.len(),
            forall|k: int|
                0 <= k < ids@.len() ==> resolved_entity(entity_store, ids@[k], #[trigger] entities@[k])
                    && entities@[k].id.0 == ids@[k],
            forall|j: int|
                0 <= j < i ==> {
                    &&& resolved_entity(entity_store, (#[trigger] raw.profiles@[j]).entity, profiles@[j].entity)
                    &&& profiles@[j].values@ == raw.profiles@[j].values@
                },
        decreases raw.profiles@.len() - i,
    {
        let p = &raw.profiles[i];
        let e = find_or_default(entities, p.entity);
        proof {
            assert(referenced(*raw, p.entity));
            lemma_found_is_resolved(p.entity, ids@, entities@, e, entity_store);
        }
        profiles.push(Profile { entity: e, values: clone_values(&p.values) });
        i = i + 1;
    }
    Experience { id: raw.id, entity, event, profiles }
}

proof fn lemma_found_is_resolved(
    id: u64,
    ids: Seq<u64>,
    entities: Seq<Entity>,
    e: Entity,
    store: Seq<Entity>,
)
    requires
        strictly_ascending(ids),
        ids.contains(id),
        entities.len() == ids.len(),
        forall|i: int|
            0 <= i < ids.len() ==> resolved_entity(store, ids[i], #[trigger] entities[i])
                && entities[i].id.0 == ids[i],
        (exists|j: int| 0 <= j < entities.len() && entities[j].id.0 == id && e == entities[j])
            || (is_placeholder_entity(e, id) && forall|j: int|
            0 <= j < entities.len() ==> (#[trigger] entities[j]).id.0 != id),
    ensures
        resolved_entity(store, id, e),
{
    let k = choose|k: int| 0 <= k < ids.len() && ids[k] == id;
    assert(entities[k].id.0 == id);
    if exists|j: int| 0 <= j < entities.len() && entities[j].id.0 == id && e == entities[j] {
        let j = choose|j: int| 0 <= j < entities.len() && entities[j].id.0 == id && e == entities[j];
        assert(ids[j] == id);
        if j < k {
            assert(ids[j] < ids[k]);
        } else if k < j {
            assert(ids[k] < ids[j]);
        }
    } else {
        // the entity at `k` has the identifier, so the search cannot have failed
        assert(false);
    }
}

/// Reads the raw record as an experience: the referenced entities are resolved in
/// ascending order of identifier, then the event, then the experience is put together.
pub fn hydrate(
    raw: &RawExperience,
    entity_store: &ResourceMap<Entity>,
    event_store: &ResourceMap<Event>,
) -> (r: Experience)
    requires
        entity_store.wf(),
        event_store.wf(),
    ensures
        hydrated(*raw, entity_store@, event_store@, r),
{
    let ids = raw.referenced_ids();
    let entities = resolve_entities(entity_store, &ids);
    let event = resolve_event(event_store, raw.event);
    compose(raw, event, &ids, &entities, Ghost(entity_store@), Ghost(event_store@))
}

/// Two records that reference the same entities, in whatever order and with whatever
/// repetitions, have them resolved in the same order: ascending by identifier.
pub proof fn lemma_lock_order_is_ascending(
    a: RawExperience,
    b: RawExperience,
    order_a: Seq<u64>,
    order_b: Seq<u64>,
)
    requires
        forall|x: u64| referenced(a, x) <==> referenced(b, x),
        strictly_ascending(order_a),
        forall|x: u64| order_a.contains(x) <==> referenced(a, x),
        strictly_ascending(order_b),
        forall|x: u64| order_b.contains(x) <==> referenced(b, x),
    ensures
        order_a == order_b,
{
    lemma_ascending_order_is_canonical(order_a, order_b);
}

} // verus!
