//! Exchange-rate aggregation across cryptocurrency exchanges: trading pairs,
//! per-exchange pair listings and the manager that routes rate queries.
pub mod text;
pub mod keyed;
pub mod amount;
pub mod adapter_core;
pub mod exchange;
pub mod exchanges;
