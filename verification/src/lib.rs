//! Endpoint detection and response for Linux: the event model, the rule engine, the readers of
//! kernel and `/proc` data, the decisions of the response engine and the texts of the interfaces.

pub mod address;
pub mod alert_laws;
pub mod analyzer;
pub mod collector;
pub mod common;
pub mod config;
pub mod encoding;
pub mod interface;
pub mod json;
pub mod monitor;
pub mod number;
pub mod path;
pub mod pattern;
pub mod record;
pub mod response;
pub mod split;
pub mod storage;
pub mod storage_laws;
pub mod tables;
pub mod tasks;
pub mod text;
pub mod time;
