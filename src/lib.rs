//! A heuristic, rule-based rewriter of logical query plans.
//!
//! A plan (`plan_node::PlanRef`) is loaded into an id-addressed arena
//! (`graph::HepGraph`). Batches of rules (`batch::HepBatch`) are tried against
//! the nodes in a fixed traversal order; a rule whose pattern
//! (`matcher::Pattern`) matches may propose one replacement tree
//! (`opt_expr::OptExpr`), which is written back in place of the matched
//! subtree. `optimizer::HepOptimizer` runs each batch until a pass changes
//! nothing or the batch's pass limit is reached, then rebuilds the plan.
//!
//! The planner that builds logical plans from bound statements, the catalog,
//! and the logical operators of bound statements live beside the optimizer.
pub mod types;
pub mod expr;
pub mod plan_node;
pub mod opt_expr;
pub mod graph;
pub mod matcher;
pub mod rules;
pub mod batch;
pub mod optimizer;
pub mod planner;
pub mod logical_type;
pub mod catalog;
pub mod operator;
