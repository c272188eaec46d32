//! Generator selection, chained-command tokenizing and project configuration
//! for an embedded-development build front end.

pub mod build_systems;
pub mod chain;
pub mod config;
pub mod dispatch;
pub mod invocations;
pub mod resolver;
pub mod text;
