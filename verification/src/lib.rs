//! A graph query planner: it compiles openCypher `MATCH`/`WHERE`/`RETURN`
//! queries into a render plan (SELECT/FROM/JOIN/WHERE plus CTEs) and SQL
//! text for a columnar analytical store.
//!
//! The planner works on an immutable logical plan tree and a per-alias plan
//! context. Every pass is an executable function whose contract is stated
//! over the mathematical views of the tree and the context.
use vstd::prelude::*;

pub mod views;
pub mod text;
pub mod assoc;
pub mod transformed;
pub mod errors;
pub mod expr;
pub mod ast;
pub mod graph_schema;
pub mod logical_plan;
pub mod plan_ctx;
pub mod plan_builder;
pub mod optimizer;
pub mod analyzer;
pub mod render_plan;
pub mod planner;
pub mod laws;

verus! {

} // verus!
