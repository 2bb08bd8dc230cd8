//! A subscriber-management and newsletter-delivery library.
//!
//! The core of the crate is the fault-tolerant newsletter issuance pipeline:
//! an idempotency store that lets a retried submission replay its original
//! response, a durable delivery queue that fans an issue out into one task
//! per confirmed subscriber and supports exclusive claims, and the worker
//! policy that resolves each claimed task to success, permanent failure or
//! transient failure.

pub mod configuration;
pub mod domain;
pub mod idempotency;
pub mod issuance;
pub mod login;
pub mod queue;
pub mod worker;
