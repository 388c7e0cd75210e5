//! Persistence adapter for an event-sourced system on a relational store:
//! error translation, the statements that a view table is driven with, and
//! in-memory tables that carry the optimistic-concurrency contract of event
//! streams, snapshots and materialized views.
pub mod error;
pub mod events;
pub mod views;

pub use crate::error::MysqlAggregateError;
