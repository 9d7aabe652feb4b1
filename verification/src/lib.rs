//! ForgeERP: event-sourced ERP domain logic, verified.
//!
//! Aggregates decide events from commands and evolve state from events;
//! the event store assigns stream positions under optimistic concurrency;
//! projections fold published envelopes into tenant-isolated read models.
pub mod common;
pub mod text;
pub mod read_model;
pub mod json;

pub mod parties;
pub mod events;
pub mod bus;
pub mod inventory;
pub mod products;
pub mod sales;
pub mod purchasing;
pub mod accounting;
pub mod auth;
pub mod invoicing;
pub mod projections;
pub mod event_store;
pub mod dispatcher;
pub mod jobs;
pub mod saga;
pub mod runner;
pub mod replay;
pub mod workers;
pub mod ai;
pub mod postgres;
pub mod redis;
