use std::sync::Arc;

use brahmand::analyzer::analyzer_pass::AnalyzerPass;
use brahmand::analyzer::duplicate_scans_removing::DuplicateScansRemoving;
use brahmand::expr::{Direction, Literal, Operator, OperatorApplication, PlanExpr};
use brahmand::logical_plan::{
    Filter, GraphNode, GraphRel, LogicalPlan, Projection, ProjectionItem, Scan,
};
use brahmand::plan_ctx::PlanCtx;
use brahmand::transformed::Transformed;

fn create_scan(alias: &str, table_name: Option<&str>) -> Arc<LogicalPlan> {
    Arc::new(LogicalPlan::Scan(Scan {
        table_alias: alias.to_string(),
        table_name: table_name.map(|s| s.to_string()),
    }))
}

fn create_graph_node(alias: &str, input: Arc<LogicalPlan>) -> Arc<LogicalPlan> {
    Arc::new(LogicalPlan::GraphNode(GraphNode {
        input,
        alias: alias.to_string(),
        down_connection: None,
    }))
}

fn create_graph_rel(
    left: Arc<LogicalPlan>,
    center: Arc<LogicalPlan>,
    right: Arc<LogicalPlan>,
    alias: &str,
    left_connection: &str,
    right_connection: &str,
    direction: Direction,
) -> Arc<LogicalPlan> {
    Arc::new(LogicalPlan::GraphRel(GraphRel {
        left,
        center,
        right,
        alias: alias.to_string(),
        direction,
        left_connection: left_connection.to_string(),
        right_connection: right_connection.to_string(),
        is_rel_anchor: false,
    }))
}

#[test]
fn test_complex_nested_plan_with_duplicates() {
    let analyzer = DuplicateScansRemoving::new();
    let mut plan_ctx = PlanCtx::default();

    let left_user_scan = create_scan("user", Some("users"));
    let left_user_node = create_graph_node("user", left_user_scan);

    let center_scan = create_scan("follows", Some("follows_table"));

    let right_user_scan = create_scan("user", Some("users"));
    let right_user_node = create_graph_node("user", right_user_scan);

    let graph_rel = create_graph_rel(
        right_user_node,
        center_scan,
        left_user_node,
        "follows",
        "user",
        "user",
        Direction::Either,
    );

    let filter = Arc::new(LogicalPlan::Filter(Filter {
        input: graph_rel,
        predicate: PlanExpr::OperatorApplicationExp(OperatorApplication {
            operator: Operator::GreaterThan,
            operands: vec![
                PlanExpr::Literal(Literal::Integer(1)),
                PlanExpr::Literal(Literal::Integer(0)),
            ],
        }),
    }));

    let projection = Arc::new(LogicalPlan::Projection(Projection {
        input: filter,
        items: vec![ProjectionItem {
            expression: PlanExpr::Literal(Literal::String("test".to_string())),
            col_alias: None,
        }],
    }));

    let result = analyzer.analyze(projection, &mut plan_ctx).unwrap();

    match result {
        Transformed::Yes(transformed_plan) => match transformed_plan.as_ref() {
            LogicalPlan::Projection(proj) => match proj.input.as_ref() {
                LogicalPlan::Filter(filter) => match filter.input.as_ref() {
                    LogicalPlan::GraphRel(rel) => match rel.left.as_ref() {
                        LogicalPlan::Empty => (),
                        _ => panic!("Expected left side to be Empty due to duplicate"),
                    },
                    _ => panic!("Expected GraphRel in filter"),
                },
                _ => panic!("Expected Filter in projection"),
            },
            _ => panic!("Expected Projection at top"),
        },
        _ => panic!("Expected transformation"),
    }
}

#[test]
fn test_traversed_set_tracking() {
    let analyzer = DuplicateScansRemoving::new();
    let mut plan_ctx = PlanCtx::default();

    let user_a_scan = create_scan("userA", Some("users"));
    let user_a_node = create_graph_node("userA", user_a_scan);

    let user_b_scan = create_scan("userB", Some("users"));
    let user_b_node = create_graph_node("userB", user_b_scan);

    let rel1_scan = create_scan("follows", Some("follows"));

    let first_rel = create_graph_rel(
        user_a_node,
        rel1_scan,
        user_b_node,
        "follows",
        "userA",
        "userB",
        Direction::Outgoing,
    );

    let duplicate_user_a_scan = create_scan("userA", Some("users"));
    let duplicate_user_a_node = create_graph_node("userA", duplicate_user_a_scan);

    let rel2_scan = create_scan("likes", Some("likes"));

    let second_rel = create_graph_rel(
        duplicate_user_a_node,
        rel2_scan,
        first_rel,
        "likes",
        "userA",
        "userB",
        Direction::Either,
    );

    let result = analyzer.analyze(second_rel, &mut plan_ctx).unwrap();

    match result {
        Transformed::Yes(transformed_plan) => match transformed_plan.as_ref() {
            LogicalPlan::GraphRel(rel) => {
                assert!(matches!(rel.left.as_ref(), LogicalPlan::Empty));
                assert_eq!(rel.left_connection, "userA");
            }
            _ => panic!("Expected GraphRel"),
        },
        _ => panic!("Expected transformation due to duplicate userA"),
    }
}
