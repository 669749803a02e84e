//! The durable tier: settings, the store adapter's policy, the asynchronous
//! write path and the manager that pairs one store with one cache.

pub mod config;
pub mod db_manager;
pub mod pipeline;
pub mod rocks_db;
