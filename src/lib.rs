pub mod aggregate;
pub mod api;
pub mod auth;
pub mod cache;
pub mod config;
pub mod crypto;
pub mod schedule;
pub mod term;
pub mod text;
pub mod timetable;
pub mod upstream;
