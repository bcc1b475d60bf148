//! A benchmark harness for bulk ingestion strategies: connection addresses,
//! batching, run plans, throughput arithmetic and result ranking.

pub mod text;
pub mod connection;
pub mod chunking;
pub mod strategy;
pub mod report;
pub mod suite;
