//! Verified core logic of the Kival workspace server.
pub mod text;
pub mod vocab;
pub mod strset;
pub mod catalog;
pub mod actions;
pub mod demos;
pub mod initializers;
pub mod env;
pub mod dotenv;
pub mod dirs;
pub mod args;
pub mod security;
pub mod config;
pub mod references;
pub mod kernel;
pub mod admin;
pub mod seed;
pub mod demo_seed;
pub mod seed_events;
pub mod crash;
pub mod json;
pub mod transitions;
