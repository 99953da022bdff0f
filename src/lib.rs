//! Projects, their ordered views and single-key pins, kept in a SQLite store
//! and exchanged with a window manager as `project#view` workspace names.
pub mod display_name;
pub mod journal;
pub mod lookup;
pub mod model;
pub mod navigation;
pub mod repository;
mod store;
