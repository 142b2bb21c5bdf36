//! Entities: anything which to interact with.
use vstd::prelude::*;
use crate::graph::Identify;
use std::collections::hash_map::RandomState;

verus! {

/// EntityId is the identifier of an [Entity].
#[derive(Clone, Copy, Debug, PartialEq, Eq, Structural, Hash)]
pub struct EntityId(pub u64);

/// EntityName is the name of an [Entity].
#[derive(Debug)]
pub struct EntityName(pub String);

impl Clone for EntityName {
    fn clone(&self) -> (r: Self)
        ensures
            r == *self,
    {
        EntityName(self.0.clone())
    }
}

/// An Entity is anything which to interact with.
#[derive(Debug)]
pub struct Entity {
    pub id: EntityId,
    pub name: EntityName,
}

impl Clone for Entity {
    fn clone(&self) -> (r: Self)
        ensures
            r == *self,
    {
        Entity { id: self.id, name: self.name.clone() }
    }
}

/// Two entities are the same entity when they have the same identifier.
impl PartialEq for Entity {
    fn eq(&self, other: &Entity) -> (r: bool) {
        self.id.0 == other.id.0
    }
}

impl vstd::std_specs::cmp::PartialEqSpecImpl for Entity {
    open spec fn obeys_eq_spec() -> bool {
        true
    }

    open spec fn eq_spec(&self, other: &Entity) -> bool {
        self.id.0 == other.id.0
    }
}

impl Eq for Entity {
}

impl Identify for Entity {
    open spec fn key(&self) -> u64 {
        self.id.0
    }

    fn id(&self) -> (r: u64) {
        self.id.0
    }
}

/// Whether `e` is the stand-in for a missing entity with identifier `id`: it carries
/// the identifier and an empty name.
pub open spec fn is_placeholder_entity(e: Entity, id: u64) -> bool {
    e.id.0 == id && e.name.0@ == Seq::<char>::empty()
}

/// Relies on std's RandomState::new: a hasher builder seeded with fresh random keys.
#[verifier::external_body]
fn random_state() -> RandomState {
    RandomState::new()
}

/// Relies on std's BuildHasher::hash_one: the hash of `v` under the builder's keys.
#[verifier::external_body]
fn hash_one(state: &RandomState, v: u64) -> u64 {
    std::hash::BuildHasher::hash_one(state, v)
}

impl Entity {
    /// Creates a new entity with the given name and an autogenerated id.
    pub fn new(name: EntityName) -> (r: Self)
        ensures
            r.name == name,
    {
        let state = random_state();
        let id = hash_one(&state, 0);
        Entity { id: EntityId(id), name }
    }

    /// Creates a new entity with the given id and name.
    pub fn with_id(id: EntityId, name: EntityName) -> (r: Self)
        ensures
            r.id == id,
            r.name == name,
    {
        Entity { id, name }
    }

    /// The stand-in for a missing entity with identifier `id`.
    pub fn placeholder(id: u64) -> (r: Self)
        ensures
            is_placeholder_entity(r, id),
    {
        Entity { id: EntityId(id), name: EntityName(String::new()) }
    }

    /// Returns a reference to the name of self.
    pub fn name(&self) -> (r: &EntityName)
        ensures
            *r == self.name,
    {
        &self.name
    }
}

} // verus!
