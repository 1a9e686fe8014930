//! Readers of the analytical SQL that the query compiler emits, as the local
//! lake engine needs them: the entity behind `FROM`, the projected columns and
//! their aggregates, the `LIMIT`, and the named sub-queries of a `WITH` clause.
//!
//! The entity and the `LIMIT` are read from the Unicode lower-case form of
//! the text, as `str::to_lowercase` gives it. Where a reader cuts the
//! original text at positions found in a lower-cased copy (projections,
//! sub-query names), keywords are matched with ASCII case folding, which
//! keeps every position in place; all positions are character positions.
pub mod entity;
pub mod projection;
pub mod cte;
pub mod filters;
pub mod time_range;
pub mod final_expr;
