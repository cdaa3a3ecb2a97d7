//! A cooperative message core for user-interface controls: a message pool,
//! typed addresses into a shared message type, a query/response envelope and
//! a single-threaded executor that drives protocols across ticks.

pub mod pool;
pub mod request;
pub mod router;
pub mod gui;
