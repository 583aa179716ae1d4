//! Verified task model, safety rules and text parsing for the BackupRestore
//! one-click Windows backup/restore tool.

pub mod text;
pub mod number;
pub mod time;
pub mod outside;
pub mod model;
pub mod paths;
pub mod task;
pub mod parsing;
pub mod env;
pub mod recovery;
pub mod plan;
pub mod backup;
pub mod mounting;
pub mod digest;
pub mod store;
pub mod winre;
pub mod bcd;
pub mod gui;
pub mod pe;
pub mod json;
pub mod display;
pub mod labels;
pub mod percent;
pub mod progress;
pub mod sizes;
