//! Newsletter delivery: idempotent publishing and a durable delivery queue.
//!
//! Publishing an issue under an idempotency key happens once, however often
//! the request comes in ([`idempotency`], [`newsletter`]). Each confirmed
//! subscriber gets the issue through a queue of delivery tasks that any
//! number of workers drain, one task with one worker at a time
//! ([`delivery_queue`], [`issue_delivery_worker`]).
//!
//! The relational store is modelled as plain tables ([`store`]); the
//! components that work on it state, in their contracts, what each
//! operation does to those tables. What the components promise together is
//! proved in [`guarantees`]. Where a component leaves a decision to be
//! taken between two steps of input and output (a claim that inserted a
//! row or none, a task with a valid address or none, an email that was
//! sent or refused), the decision is a function of its own, to be called
//! by whoever runs those steps against a real store and a real sender.
pub mod authentication;
pub mod configuration;
pub mod delivery_queue;
pub mod domain;
pub mod email_client;
pub mod guarantees;
pub mod idempotency;
pub mod identifiers;
pub mod issue_delivery_worker;
pub mod newsletter;
pub mod query;
pub mod routes;
pub mod startup;
pub mod store;
