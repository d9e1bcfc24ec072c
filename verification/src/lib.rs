//! Event capture and distribution pipeline for a room-booking chat bot.
//!
//! The crate has two halves that share the [`event::Event`] record:
//! an interaction gateway that authenticates a webhook call, drives a
//! four-stage interaction flow and produces the event to persist, and a
//! distribution planner that filters stored events to the future, groups
//! them by building and by room, orders each group by time and yields the
//! topic-scoped publications to send.

pub mod auth;
pub mod distribution;
pub mod event;
pub mod gateway;
pub mod json;
pub mod location;
pub mod modal;
pub mod text;
