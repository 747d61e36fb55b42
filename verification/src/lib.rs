//! Market-data domain model and ingestion logic for a VN30 real-time analyzer:
//! validated instruments, trades and quotes, configuration rules, subscription
//! bookkeeping, message adaptation, de-duplication, re-sequencing and liveness
//! monitoring.

pub mod ieee;
pub mod text;
pub mod sorted_texts;
pub mod errors;
pub mod config;
pub mod timestamp;
pub mod symbol;
pub mod market;
pub mod sequencer;
pub mod dedup;
pub mod health;
pub mod stale;
pub mod subscription;
pub mod symbol_mapper;
pub mod auth;
pub mod websocket;
pub mod parser;
pub mod session;
