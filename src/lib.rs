//! A mock-service test harness: a short-lived endpoint answers declared routes
//! with declared responses, records what it receives, and stops once every
//! declared response has been used.
//!
//! - `dispatch`: which handler answers each call to a route, and the
//!   exactly-once completion accounting over all routes, with its laws.
//! - `respond`, `collect`: the dynamic-handler behaviour and the request sink.
//! - `http`, `grpc`, `graphql`: the three request flavours, each with its
//!   routes, handlers and the per-request pipeline of a run.
//! - `scenario`, `lifecycle`: assembling a scenario, and the phases of a run.
//! - `text`, `json`, `error`: text comparisons, JSON values, run errors.
pub mod collect;
pub mod dispatch;
pub mod error;
pub mod graphql;
pub mod grpc;
pub mod http;
pub mod json;
pub mod lifecycle;
pub mod respond;
pub mod scenario;
pub mod text;
