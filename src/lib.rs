//! Basic CRUD on SQLite tables and a CSV extract-transform-load pipeline
//! that fills deduplicated lookup tables and per-row fact tables.

pub mod error;
pub mod sql;
pub mod db;
pub mod records;
pub mod config;
pub mod transform;
pub mod crud;
pub mod args;
