//! A scanner that keeps the proxies of a list that are alive and unlisted.

pub mod address;
pub mod blocklist;
pub mod database;
pub mod geo;
pub mod laws;
pub mod proxy;
pub mod response;
pub mod text;
