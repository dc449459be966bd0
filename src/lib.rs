//! A reverse-proxy gateway core: route resolution, request forwarding
//! decisions, and a bounded metrics aggregator for a live dashboard.

pub mod text;
pub mod router;
pub mod error;
pub mod proxy;
pub mod models;
pub mod storage;
pub mod feed;
