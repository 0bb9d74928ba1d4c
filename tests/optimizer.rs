use std::sync::Arc;

use sqlrs::batch::{HepBatch, HepBatchStrategy};
use sqlrs::expr::{BinaryOperator, BoundBinaryOp, BoundColumnRef, BoundExpr, BoundInputRef};
use sqlrs::graph::{HepGraph, HepMatchOrder};
use sqlrs::matcher::{HepMatcher, Pattern, PatternChildren};
use sqlrs::opt_expr::{OptExpr, OptExprNode};
use sqlrs::optimizer::{run_batch, HepOptimizer};
use sqlrs::plan_node::{
    LogicalFilter, LogicalProject, LogicalTableScan, PhysicalFilter, PhysicalProject,
    PhysicalTableScan, PlanNode, PlanNodeType, PlanRef,
};
use sqlrs::rules::{InputRefRewriteRule, PhysicalRewriteRule};
use sqlrs::types::{ColumnCatalog, ColumnDesc, DataType, ScalarValue};

fn build_column_catalog(table_id: &str, column: &str) -> ColumnCatalog {
    ColumnCatalog {
        table_id: table_id.to_string(),
        column_id: column.to_string(),
        desc: ColumnDesc { name: column.to_string(), data_type: DataType::Int32 },
    }
}

fn build_bound_column_ref(table_id: &str, column: &str) -> BoundExpr {
    BoundExpr::ColumnRef(BoundColumnRef { column_catalog: build_column_catalog(table_id, column) })
}

fn build_bound_input_ref(index: usize) -> BoundExpr {
    BoundExpr::InputRef(BoundInputRef { index, return_type: DataType::Int32 })
}

fn build_logical_table_scan(table_id: &str) -> LogicalTableScan {
    LogicalTableScan {
        table_id: table_id.to_string(),
        columns: vec![build_column_catalog(table_id, "c1"), build_column_catalog(table_id, "c2")],
    }
}

fn build_filter_expr() -> BoundExpr {
    BoundExpr::BinaryOp(BoundBinaryOp {
        op: BinaryOperator::Eq,
        left: Box::new(build_bound_column_ref("t", "c1")),
        right: Box::new(BoundExpr::Constant(ScalarValue::Int32(Some(2)))),
        return_type: Some(DataType::Boolean),
    })
}

/// scan t(c1, c2) -> filter c1 = 2 -> project c2
fn build_plan() -> PlanRef {
    let scan = PlanRef::new(
        PlanNode::LogicalTableScan(Arc::new(build_logical_table_scan("t"))),
        vec![],
    );
    let filter = PlanRef::new(
        PlanNode::LogicalFilter(Arc::new(LogicalFilter { expr: build_filter_expr() })),
        vec![scan],
    );
    PlanRef::new(
        PlanNode::LogicalProject(Arc::new(LogicalProject {
            exprs: vec![build_bound_column_ref("t", "c2")],
        })),
        vec![filter],
    )
}

fn build_physical_plan() -> PlanRef {
    let scan = PlanRef::new(
        PlanNode::PhysicalTableScan(PhysicalTableScan::new(Arc::new(build_logical_table_scan("t")))),
        vec![],
    );
    let filter = PlanRef::new(
        PlanNode::PhysicalFilter(PhysicalFilter::new(Arc::new(LogicalFilter {
            expr: build_filter_expr(),
        }))),
        vec![scan],
    );
    PlanRef::new(
        PlanNode::PhysicalProject(PhysicalProject::new(Arc::new(LogicalProject {
            exprs: vec![build_bound_column_ref("t", "c2")],
        }))),
        vec![filter],
    )
}

#[test]
fn test_hep_optimizer_works() {
    let root = build_plan();
    let batch = HepBatch::new(
        "Final Step".to_string(),
        HepBatchStrategy::once_topdown(),
        vec![InputRefRewriteRule::create(), PhysicalRewriteRule::create()],
    );
    let mut planner = HepOptimizer::new(vec![batch], root);
    let new_plan = planner.find_best();
    match &new_plan.node {
        PlanNode::PhysicalProject(p) => {
            assert_eq!(p.logical().exprs[0], build_bound_input_ref(1));
        }
        other => panic!("expected a physical projection, got {:?}", other),
    }
}

#[test]
fn scenario_a_rewrites_only_the_root_in_one_pass() {
    let mut planner = HepOptimizer::new(
        vec![HepBatch::new(
            "Final Step".to_string(),
            HepBatchStrategy::once_topdown(),
            vec![InputRefRewriteRule::create(), PhysicalRewriteRule::create()],
        )],
        build_plan(),
    );
    let new_plan = planner.find_best();
    assert_eq!(new_plan.node_type(), PlanNodeType::PhysicalProject);
    assert_eq!(new_plan.children.len(), 1);
    let filter = &new_plan.children[0];
    assert_eq!(filter.node_type(), PlanNodeType::LogicalFilter);
    match &filter.node {
        PlanNode::LogicalFilter(f) => assert_eq!(f.expr, build_filter_expr()),
        other => panic!("expected a logical filter, got {:?}", other),
    }
    assert_eq!(filter.children[0].node_type(), PlanNodeType::LogicalTableScan);
}

#[test]
fn scenario_b_no_rule_applies_plan_unchanged() {
    let mut graph = HepGraph::new(build_physical_plan());
    let batch = HepBatch::new(
        "Nothing".to_string(),
        HepBatchStrategy::fix_point_topdown(10),
        vec![PhysicalRewriteRule::create()],
    );
    let passes = run_batch(&mut graph, &batch);
    assert_eq!(passes, 1);
    assert_eq!(graph.to_plan(), build_physical_plan());

    let mut planner = HepOptimizer::new(vec![batch], build_physical_plan());
    assert_eq!(planner.find_best(), build_physical_plan());
}

#[test]
fn exact_type_pattern_matches_no_absent_type() {
    let graph = HepGraph::new(build_plan());
    let pattern = Pattern { predicate: Some(PlanNodeType::LogicalLimit), children: PatternChildren::Opaque };
    for id in graph.nodes_iter(HepMatchOrder::TopDown) {
        assert!(HepMatcher::new(&pattern, id, &graph).match_opt_expr().is_none());
    }
    let project = Pattern {
        predicate: Some(PlanNodeType::LogicalProject),
        children: PatternChildren::Opaque,
    };
    let m = HepMatcher::new(&project, graph.root, &graph).match_opt_expr().unwrap();
    assert_eq!(m.root, OptExprNode::OptExpr(graph.root));
    assert!(m.children.is_empty());
}

#[test]
fn fixed_point_iteration_is_bounded() {
    let rules = || vec![InputRefRewriteRule::create(), PhysicalRewriteRule::create()];
    let mut graph = HepGraph::new(build_plan());
    let capped = HepBatch::new("capped".to_string(), HepBatchStrategy::fix_point_topdown(2), rules());
    assert_eq!(run_batch(&mut graph, &capped), 2);

    let mut graph = HepGraph::new(build_plan());
    let free = HepBatch::new("free".to_string(), HepBatchStrategy::fix_point_topdown(10), rules());
    assert_eq!(run_batch(&mut graph, &free), 4);
    let plan = graph.to_plan();
    assert_eq!(plan.node_type(), PlanNodeType::PhysicalProject);
    assert_eq!(plan.children[0].node_type(), PlanNodeType::PhysicalFilter);
    assert_eq!(plan.children[0].children[0].node_type(), PlanNodeType::PhysicalTableScan);
    match &plan.children[0].node {
        PlanNode::PhysicalFilter(f) => match &f.logical().expr {
            BoundExpr::BinaryOp(b) => assert_eq!(*b.left, build_bound_input_ref(0)),
            other => panic!("expected a comparison, got {:?}", other),
        },
        other => panic!("expected a physical filter, got {:?}", other),
    }
}

#[test]
fn zero_iteration_cap_still_runs_one_pass() {
    let mut graph = HepGraph::new(build_plan());
    let batch = HepBatch::new(
        "zero".to_string(),
        HepBatchStrategy::fix_point_bottomup(0),
        vec![PhysicalRewriteRule::create()],
    );
    assert_eq!(run_batch(&mut graph, &batch), 1);
    // bottom-up: the scan is the first node tried
    let plan = graph.to_plan();
    assert_eq!(plan.node_type(), PlanNodeType::LogicalProject);
    assert_eq!(plan.children[0].children[0].node_type(), PlanNodeType::PhysicalTableScan);
}

#[test]
fn round_trip_through_opt_expr() {
    let plan = build_plan();
    let opt = OptExpr::new_from_plan_ref(&plan);
    assert!(matches!(opt.root, OptExprNode::PlanRef(_)));
    assert_eq!(opt.children.len(), 1);
    assert_eq!(opt.to_plan_ref(), build_plan());
}

#[test]
fn graph_reference_becomes_placeholder() {
    let opt = OptExpr::new(OptExprNode::OptExpr(3), vec![]);
    assert_eq!(opt.to_plan_ref().node_type(), PlanNodeType::Dummy);
}

#[test]
fn traversal_orders() {
    let graph = HepGraph::new(build_plan());
    let top = graph.nodes_iter(HepMatchOrder::TopDown);
    let bottom = graph.nodes_iter(HepMatchOrder::BottomUp);
    assert_eq!(top.len(), 3);
    assert_eq!(top[0], graph.root);
    assert_eq!(graph.node(top[2]).node_type(), PlanNodeType::LogicalTableScan);
    let mut reversed = bottom.clone();
    reversed.reverse();
    assert_eq!(top, reversed);
}

#[test]
fn replace_keeps_untouched_ids() {
    let mut graph = HepGraph::new(build_plan());
    let root = graph.root;
    let filter = graph.children(root)[0];
    let scan = graph.children(filter)[0];
    // replace the filter by a new filter over the same scan
    let new_filter = OptExpr::new(
        OptExprNode::PlanRef(PlanNode::LogicalFilter(Arc::new(LogicalFilter {
            expr: build_bound_input_ref(0),
        }))),
        vec![OptExpr::new(OptExprNode::OptExpr(scan), vec![])],
    );
    graph.replace_node(filter, new_filter);
    let new_root = graph.root;
    assert_ne!(new_root, root);
    let new_filter_id = graph.children(new_root)[0];
    assert_ne!(new_filter_id, filter);
    assert_eq!(graph.children(new_filter_id)[0], scan);
    assert_eq!(graph.node(new_root).node_type(), PlanNodeType::LogicalProject);
    assert_eq!(graph.nodes_iter(HepMatchOrder::TopDown), vec![new_root, new_filter_id, scan]);
}

#[test]
fn schema_passes_through_filter_and_project() {
    let plan = build_plan();
    assert_eq!(
        plan.schema(),
        vec![build_column_catalog("t", "c1"), build_column_catalog("t", "c2")]
    );
}

#[test]
fn return_types() {
    assert_eq!(build_filter_expr().return_type(), Some(DataType::Boolean));
    assert_eq!(build_bound_input_ref(1).return_type(), Some(DataType::Int32));
    assert_eq!(
        BoundExpr::Constant(ScalarValue::Utf8(Some("a".to_string()))).return_type(),
        Some(DataType::Utf8)
    );
}

#[test]
fn pattern_with_wrong_child_count_never_matches() {
    let graph = HepGraph::new(build_plan());
    let two_children = Pattern {
        predicate: None,
        children: PatternChildren::List(vec![Pattern::any(), Pattern::any()]),
    };
    let one_child = Pattern { predicate: None, children: PatternChildren::List(vec![Pattern::any()]) };
    for id in graph.nodes_iter(HepMatchOrder::TopDown) {
        assert!(HepMatcher::new(&two_children, id, &graph).match_opt_expr().is_none());
    }
    // the scan has no child, the filter and the projection have one
    let matched: Vec<bool> = graph
        .nodes_iter(HepMatchOrder::TopDown)
        .into_iter()
        .map(|id| HepMatcher::new(&one_child, id, &graph).match_opt_expr().is_some())
        .collect();
    assert_eq!(matched, vec![true, true, false]);
    let m = HepMatcher::new(&one_child, graph.root, &graph).match_opt_expr().unwrap();
    let filter = graph.children(graph.root)[0];
    assert_eq!(m.children.len(), 1);
    assert_eq!(m.children[0].root, OptExprNode::OptExpr(filter));
}
