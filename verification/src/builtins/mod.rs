//! The logic of the builtin plugins: the agent's observer core and
//! session rules, prompt text, the key-value database and the model
//! stubs.

pub mod agent_core;
pub mod inputs;
pub mod session;
pub mod calendar;
pub mod prompt;
pub mod database;
pub mod plugins;
pub mod models;
pub mod reply;
pub mod inspectors;
pub mod runtime;
pub mod memory;
