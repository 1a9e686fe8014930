//! The ingest pipeline: the railway runner, the saga that undoes external
//! effects when a later step fails, the quota step's decisions, and the
//! dispatch of domain faults.
pub mod pipeline;
pub mod saga;
pub mod quota_step;
pub mod sherlog;
pub mod error_response;
pub mod janus_step;
