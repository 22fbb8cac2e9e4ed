//! Declarative per-domain browser automation: loop planning, action
//! execution and session orchestration as verified state machines that an
//! outer driver feeds with the results of remote browser commands.

pub mod config;
pub mod cookie_sync;
pub mod cookies;
pub mod executor;
pub mod gate;
pub mod links;
pub mod planner;
pub mod session;
pub mod models;
pub mod text;
pub mod timing;
