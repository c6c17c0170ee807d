//! Review aggregation core: a durable review store, a TTL-bounded cache of
//! derived aggregates (average rating, review count), and the aggregator that
//! composes the two with cache-aside reads and check-then-upsert writes.
pub mod review;
pub mod select;
pub mod store;
pub mod cache;
pub mod database;
pub mod laws;
