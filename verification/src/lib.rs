//! Core engine of a multi-platform chat bot: command resolution and
//! dispatch, the action mini-language, per-channel message filtering,
//! the entity store with its caches, and the outgoing message bus.
pub mod bus;
pub mod cache;
pub mod commands;
pub mod database;
pub mod filter;
pub mod handler;
pub mod interpreter;
pub mod models;
pub mod platform;
pub mod strutil;
pub mod web;
