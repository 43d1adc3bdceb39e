//! The verified logic of the ntfy desktop client: rule matching and
//! actions, rule validation, the notification schedule, the logs, the
//! background WebSocket listener and the device modules' decisions.

pub mod background;
pub mod commands;
pub mod engine;
pub mod executor;
pub mod laws;
pub mod listener;
pub mod logs;
pub mod matcher;
pub mod models;
pub mod modules;
pub mod rules;
pub mod schedule;
pub mod screen;
pub mod text;
pub mod tokens;
pub mod tray;
pub mod urls;
pub mod validation;
pub mod volume;
