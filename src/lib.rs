//! A matchmaking chat bot's core: profiles, exposure tracking, activity
//! ranking, candidate selection and the per-chat conversation state machine.
pub mod bot;
pub mod error;
pub mod match_engine;
pub mod profile;
pub mod profile_activities;
pub mod profile_view;
pub mod store;
pub mod text;
