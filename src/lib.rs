//! A transactional in-memory data layer: keyed stores of records with guarded
//! access, an insertion pipeline with before and after triggers, and a chain of
//! constraints that validates an experience against its subject's timeline.

pub mod command;
pub mod constraint;
pub mod entity;
pub mod error;
pub mod experience;
pub mod graph;
pub mod order;
pub mod repository;
pub mod resource;
pub mod rules;
pub mod schema;
pub mod service;
