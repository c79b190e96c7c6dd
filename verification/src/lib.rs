//! Scaffolding of a REST layer over persisted entities.
//!
//! From the declaration of an entity and a handful of directives the crate
//! derives the identity-free companion type used for creation, the source of
//! the five persistence operations and of the REST handlers built on them,
//! and it models the pipeline those handlers run and the envelope they answer
//! with.

pub mod companion;
pub mod config;
pub mod crud;
pub mod entity;
pub mod error;
pub mod handlers;
pub mod host_group;
pub mod json;
pub mod metadata;
pub mod negotiated;
pub mod negotiation;
pub mod persistence;
pub mod pipeline;
pub mod rest;
pub mod text;
pub mod token;
