//! The verified core of Maestro: sessions, gates, attention, the background
//! daemon and the text handling they share.
pub mod agent;
pub mod asking;
pub mod attention;
pub mod backup;
pub mod branches;
pub mod bus;
pub mod checks;
pub mod clip;
pub mod compose;
pub mod config;
pub mod daemon;
pub mod diff;
pub mod effects;
pub mod error;
pub mod escalation;
pub mod gate;
pub mod health;
pub mod housekeeping;
pub mod impact;
pub mod json;
pub mod launcher;
pub mod locating;
pub mod notes;
pub mod outside;
pub mod pr;
pub mod prompts;
pub mod questions;
pub mod radius;
pub mod reading;
pub mod redteam;
pub mod session;
pub mod settings;
pub mod sorting;
pub mod table;
pub mod text;
pub mod units;
pub mod upkeep;
pub mod worktree;
