//! Verified core of a small HTTP benchmark: the rules of the `/wagmi`
//! endpoint and the bookkeeping of the load driver that measures it.

pub mod config;
pub mod dispatch;
pub mod histogram;
pub mod record;
pub mod report;
pub mod service;
pub mod sorting;
pub mod stats;
pub mod timestamp;
