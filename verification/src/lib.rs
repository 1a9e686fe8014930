//! Verified core of the metri engine: the logic of its read and write
//! paths — the SQL readers and time handling of the local lake engine, the
//! reading of Athena results, OLAP naming and drift, tenant isolation, list
//! truncation, the ingest pipeline and its saga, quota reservations and
//! their settlement, role grants, session tokens, event routing, and fault
//! severity. Each call into an outside crate goes through a small function
//! whose contract restates what that crate documents.
pub mod text;
pub mod base64_text;
pub mod json;
pub mod sources;
pub mod numbers;
pub mod errors;
pub mod codice;
pub mod order;
pub mod list_support;
pub mod seeder;
pub mod tenant_guard;
pub mod iop;
pub mod sql_parse;
pub mod quota;
pub mod stream_writer;
pub mod eda;
pub mod grants;
pub mod status;
pub mod session;
pub mod interceptors;
pub mod lake;
pub mod hierarchy;
pub mod agent_config;
pub mod publishers;
pub mod audit;
pub mod query_cache;
pub mod glue;
pub mod athena;
pub mod export;
pub mod batch_write;
pub mod handlers;
pub mod viz_meta;
pub mod routing;
pub mod local_query;
pub mod chunk;
