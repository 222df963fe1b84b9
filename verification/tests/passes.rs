use std::sync::Arc;

use brahmand::analyzer::analyzer_pass::AnalyzerPass;
use brahmand::analyzer::duplicate_scans_removing::DuplicateScansRemoving;
use brahmand::analyzer::filter_tagging::FilterTagging;
use brahmand::analyzer::graph_join_inference::{base_label, sort_by_on_len, GraphJoinInference};
use brahmand::analyzer::graph_traversal_planning::{
    alias_from_hex, generate_id, GraphTRaversalPlanning,
};
use brahmand::analyzer::group_by_building::GroupByBuilding;
use brahmand::analyzer::last_node_tagging::LastNodeTagging;
use brahmand::analyzer::projection_tagging::ProjectionTagging;
use brahmand::analyzer::schema_inference::{PatternAliases, SchemaInference};
use brahmand::errors::{AnalyzerError, GraphSchemaError, Pass, PlanCtxError, RenderBuildError};
use brahmand::expr::{
    AggregateFnCall, Column, Direction, InSubquery, Literal, Operator, OperatorApplication,
    PlanExpr, PropertyAccess, ScalarFnCall, SubquerySubPlan, TableAlias,
};
use brahmand::graph_schema::{GraphSchema, NodeIdSchema, NodeSchema, RelationshipSchema};
use brahmand::logical_plan::{
    Cte, Filter, GraphJoins, GraphNode, GraphRel, Join, Limit, LogicalPlan, Projection,
    ProjectionItem, Scan, Skip, Union,
};
use brahmand::optimizer::anchor_node_selection::AnchorNodeSelection;
use brahmand::optimizer::filter_push_down::FilterPushDown;
use brahmand::optimizer::optimizer_pass::OptimizerPass;
use brahmand::optimizer::projection_push_down::ProjectionPushDown;
use brahmand::plan_ctx::{PlanCtx, TableCtx};
use brahmand::render_plan::plan_builder::clean_last_node_filters;
use brahmand::transformed::Transformed;

fn pa(alias: &str, column: &str) -> PlanExpr {
    PlanExpr::PropertyAccessExp(PropertyAccess {
        table_alias: TableAlias(alias.to_string()),
        column: Column(column.to_string()),
    })
}

fn col(name: &str) -> PlanExpr {
    PlanExpr::Column(Column(name.to_string()))
}

fn num(i: i64) -> PlanExpr {
    PlanExpr::Literal(Literal::Integer(i))
}

fn op(operator: Operator, operands: Vec<PlanExpr>) -> PlanExpr {
    PlanExpr::OperatorApplicationExp(OperatorApplication { operator, operands })
}

fn count_of(arg: PlanExpr) -> PlanExpr {
    PlanExpr::AggregateFnCall(AggregateFnCall { name: "count".to_string(), args: vec![arg] })
}

fn insub(sub_in: &str, table: &str, column: &str) -> PlanExpr {
    PlanExpr::InSubquery(InSubquery {
        expr: Box::new(col(sub_in)),
        subplan: SubquerySubPlan { table_name: table.to_string(), column: column.to_string() },
    })
}

fn item(expression: PlanExpr) -> ProjectionItem {
    ProjectionItem { expression, col_alias: None }
}

fn scan(alias: &str, table: Option<&str>) -> Arc<LogicalPlan> {
    Arc::new(LogicalPlan::Scan(Scan {
        table_alias: alias.to_string(),
        table_name: table.map(|t| t.to_string()),
    }))
}

fn graph_node(alias: &str) -> Arc<LogicalPlan> {
    Arc::new(LogicalPlan::GraphNode(GraphNode {
        input: scan(alias, None),
        alias: alias.to_string(),
        down_connection: None,
    }))
}

fn graph_rel(
    left: Arc<LogicalPlan>,
    right: Arc<LogicalPlan>,
    alias: &str,
    left_connection: &str,
    right_connection: &str,
    direction: Direction,
) -> Arc<LogicalPlan> {
    Arc::new(LogicalPlan::GraphRel(GraphRel {
        left,
        center: scan(alias, None),
        right,
        alias: alias.to_string(),
        direction,
        left_connection: left_connection.to_string(),
        right_connection: right_connection.to_string(),
        is_rel_anchor: false,
    }))
}

fn projection(input: Arc<LogicalPlan>, items: Vec<ProjectionItem>) -> Arc<LogicalPlan> {
    Arc::new(LogicalPlan::Projection(Projection { input, items }))
}

fn filter(input: Arc<LogicalPlan>, predicate: PlanExpr) -> Arc<LogicalPlan> {
    Arc::new(LogicalPlan::Filter(Filter { input, predicate }))
}

fn node_schema(table: &str, columns: &[&str]) -> (String, NodeSchema) {
    (
        table.to_string(),
        NodeSchema {
            table_name: table.to_string(),
            column_names: columns.iter().map(|c| c.to_string()).collect(),
            primary_keys: "id".to_string(),
            node_id: NodeIdSchema { column: "id".to_string(), dtype: "UInt64".to_string() },
        },
    )
}

fn rel_schema(table: &str, from: &str, to: &str) -> (String, RelationshipSchema) {
    (
        table.to_string(),
        RelationshipSchema {
            table_name: table.to_string(),
            column_names: vec![],
            from_node: from.to_string(),
            to_node: to.to_string(),
            from_node_id_dtype: "UInt64".to_string(),
            to_node_id_dtype: "UInt64".to_string(),
        },
    )
}

fn space_schema() -> GraphSchema {
    GraphSchema::build(
        1,
        vec![
            node_schema("USER", &["id", "email"]),
            node_schema("PLANET", &["id", "name", "mass"]),
            node_schema("TOWN", &["id", "name", "zip"]),
            node_schema("CAR", &["id", "plate"]),
        ],
        vec![
            rel_schema("DRIVES", "USER", "CAR"),
            rel_schema("IS_FROM", "USER", "TOWN"),
            rel_schema("ORBITS", "PLANET", "PLANET"),
        ],
    )
}

fn ctx_of(label: Option<&str>, is_rel: bool) -> TableCtx {
    TableCtx::build(label.map(|l| l.to_string()), vec![], is_rel, true)
}

fn ctx_with(entries: Vec<(&str, TableCtx)>) -> PlanCtx {
    let mut ctx = PlanCtx::default();
    for (alias, table_ctx) in entries {
        ctx.insert_table_ctx(alias.to_string(), table_ctx);
    }
    ctx
}

fn labels(
    schema: &GraphSchema,
    left: &TableCtx,
    rel: &TableCtx,
    right: &TableCtx,
) -> Result<(String, String, String), AnalyzerError> {
    let names = PatternAliases {
        left: "l".to_string(),
        rel: "r".to_string(),
        right: "t".to_string(),
    };
    SchemaInference::new().infer_missing_labels(schema, left, rel, right, &names)
}

fn not_enough() -> Result<(String, String, String), AnalyzerError> {
    Err(AnalyzerError::NotEnoughLabels {
        pass: Pass::SchemaInference,
        left_alias: "l".to_string(),
        rel_alias: "r".to_string(),
        right_alias: "t".to_string(),
    })
}

fn no_fit() -> Result<(String, String, String), AnalyzerError> {
    Err(AnalyzerError::MissingRelationLabel { pass: Pass::SchemaInference, alias: "r".to_string() })
}

fn triple(a: &str, b: &str, c: &str) -> Result<(String, String, String), AnalyzerError> {
    Ok((a.to_string(), b.to_string(), c.to_string()))
}

// ---- schema inference ----

#[test]
fn labels_that_are_given_stand() {
    let schema = space_schema();
    assert_eq!(
        labels(
            &schema,
            &ctx_of(Some("USER"), false),
            &ctx_of(Some("DRIVES"), true),
            &ctx_of(Some("CAR"), false)
        ),
        triple("USER", "DRIVES", "CAR")
    );
}

#[test]
fn a_missing_node_is_the_other_end_of_the_relationship() {
    let schema = space_schema();
    assert_eq!(
        labels(
            &schema,
            &ctx_of(None, false),
            &ctx_of(Some("DRIVES"), true),
            &ctx_of(Some("CAR"), false)
        ),
        triple("USER", "DRIVES", "CAR")
    );
    assert_eq!(
        labels(
            &schema,
            &ctx_of(Some("USER"), false),
            &ctx_of(Some("IS_FROM"), true),
            &ctx_of(None, false)
        ),
        triple("USER", "IS_FROM", "TOWN")
    );
    assert_eq!(
        labels(
            &schema,
            &ctx_of(Some("USER"), false),
            &ctx_of(Some("LIKES"), true),
            &ctx_of(None, false)
        ),
        Err(AnalyzerError::NoRelationSchemaFound {
            pass: Pass::SchemaInference,
            rel_label: "LIKES".to_string()
        })
    );
}

#[test]
fn a_missing_relationship_is_the_one_that_links_the_nodes() {
    let schema = space_schema();
    assert_eq!(
        labels(
            &schema,
            &ctx_of(Some("CAR"), false),
            &ctx_of(None, true),
            &ctx_of(Some("USER"), false)
        ),
        triple("CAR", "DRIVES", "USER")
    );
    assert_eq!(
        labels(
            &schema,
            &ctx_of(Some("CAR"), false),
            &ctx_of(None, true),
            &ctx_of(Some("TOWN"), false)
        ),
        no_fit()
    );
    let mut two = space_schema();
    two.insert_rel_schema("OWNS".to_string(), rel_schema("OWNS", "USER", "CAR").1);
    assert_eq!(
        labels(
            &two,
            &ctx_of(Some("USER"), false),
            &ctx_of(None, true),
            &ctx_of(Some("CAR"), false)
        ),
        not_enough()
    );
}

#[test]
fn missing_nodes_are_told_from_their_columns() {
    let schema = space_schema();
    let mut town = ctx_of(None, false);
    town.insert_filter(op(Operator::Equal, vec![col("zip"), num(4711)]));
    assert_eq!(
        labels(&schema, &ctx_of(None, false), &ctx_of(Some("IS_FROM"), true), &town),
        triple("USER", "IS_FROM", "TOWN")
    );
    assert_eq!(
        labels(&schema, &town, &ctx_of(Some("IS_FROM"), true), &ctx_of(None, false)),
        triple("TOWN", "IS_FROM", "USER")
    );
    assert_eq!(
        labels(
            &schema,
            &ctx_of(None, false),
            &ctx_of(Some("DRIVES"), true),
            &ctx_of(None, false)
        ),
        triple("USER", "DRIVES", "CAR")
    );
    let mut broken = GraphSchema::build(
        1,
        vec![node_schema("USER", &["id"])],
        vec![rel_schema("DRIVES", "USER", "CAR")],
    );
    assert_eq!(
        labels(
            &broken,
            &ctx_of(None, false),
            &ctx_of(Some("DRIVES"), true),
            &ctx_of(None, false)
        ),
        Err(AnalyzerError::NoNodeSchemaFound {
            pass: Pass::SchemaInference,
            node_label: "CAR".to_string()
        })
    );
    broken.increment_version();
}

#[test]
fn several_relationships_are_told_apart_by_the_far_node() {
    let schema = space_schema();
    let mut car = ctx_of(None, false);
    car.insert_projection(item(pa("c", "plate")));
    assert_eq!(
        labels(&schema, &ctx_of(Some("USER"), false), &ctx_of(None, true), &car),
        triple("USER", "DRIVES", "CAR")
    );
    assert_eq!(
        labels(&schema, &car, &ctx_of(None, true), &ctx_of(Some("USER"), false)),
        triple("CAR", "DRIVES", "USER")
    );
    assert_eq!(
        labels(&schema, &ctx_of(Some("USER"), false), &ctx_of(None, true), &ctx_of(None, false)),
        not_enough()
    );
    assert_eq!(
        labels(&schema, &ctx_of(Some("CAR"), false), &ctx_of(None, true), &ctx_of(None, false)),
        triple("CAR", "DRIVES", "USER")
    );
    assert_eq!(
        labels(&schema, &ctx_of(Some("SHIP"), false), &ctx_of(None, true), &ctx_of(None, false)),
        no_fit()
    );
}

#[test]
fn without_any_label_both_nodes_come_from_columns() {
    let schema = space_schema();
    let mut user = ctx_of(None, false);
    user.insert_filter(op(Operator::Equal, vec![col("email"), num(1)]));
    let mut car = ctx_of(None, false);
    car.insert_projection(item(pa("c", "plate")));
    assert_eq!(labels(&schema, &user, &ctx_of(None, true), &car), triple("USER", "DRIVES", "CAR"));
    assert_eq!(
        labels(&schema, &car, &ctx_of(None, true), &ctx_of(None, false)),
        triple("CAR", "DRIVES", "USER")
    );
    assert_eq!(
        labels(&schema, &ctx_of(None, false), &ctx_of(None, true), &car),
        triple("USER", "DRIVES", "CAR")
    );
    assert_eq!(
        labels(&schema, &ctx_of(None, false), &ctx_of(None, true), &ctx_of(None, false)),
        not_enough()
    );
    // `name` belongs to two node tables: it tells nothing.
    let mut named = ctx_of(None, false);
    named.insert_filter(op(Operator::Equal, vec![col("name"), num(1)]));
    assert_eq!(
        SchemaInference::new().get_table_name_from_filters_and_projections(&schema, &named),
        None
    );
    assert_eq!(
        SchemaInference::new().get_table_name_from_filters_and_projections(&schema, &car),
        Some("CAR".to_string())
    );
}

#[test]
fn column_names_are_read_from_left_to_right() {
    let inference = SchemaInference::new();
    assert_eq!(
        inference.get_column_name_from_plan_expr(&op(
            Operator::And,
            vec![num(1), op(Operator::Equal, vec![pa("a", "x"), col("y")])]
        )),
        Some("x".to_string())
    );
    assert_eq!(inference.get_column_name_from_plan_expr(&num(1)), None);
    assert_eq!(
        inference.get_column_name_from_filter_predicates(&vec![
            col("skipped"),
            op(Operator::Equal, vec![num(1), num(2)]),
            op(Operator::Equal, vec![col("kept"), num(2)]),
        ]),
        Some("kept".to_string())
    );
    assert_eq!(
        inference.get_column_name_from_projection_items(&vec![
            item(PlanExpr::Star),
            item(count_of(pa("a", "n")))
        ]),
        Some("n".to_string())
    );
}

#[test]
fn schema_inference_labels_the_context_and_names_the_scans() {
    let schema = space_schema();
    let mut ctx = ctx_with(vec![
        ("u", ctx_of(Some("USER"), false)),
        ("d", ctx_of(Some("DRIVES"), true)),
        ("c", ctx_of(None, false)),
    ]);
    let plan = graph_rel(graph_node("c"), graph_node("u"), "d", "c", "u", Direction::Outgoing);
    let out = SchemaInference::new()
        .analyze_with_graph_schema(plan, &mut ctx, &schema)
        .unwrap()
        .get_plan();
    assert_eq!(ctx.get_table_ctx("c").unwrap().label, Some("CAR".to_string()));
    match out.as_ref() {
        LogicalPlan::GraphRel(rel) => {
            assert_eq!(
                rel.center.as_ref(),
                &LogicalPlan::Scan(Scan {
                    table_alias: "d".to_string(),
                    table_name: Some("DRIVES".to_string())
                })
            );
            match rel.left.as_ref() {
                LogicalPlan::GraphNode(n) => assert_eq!(
                    n.input.as_ref(),
                    &LogicalPlan::Scan(Scan {
                        table_alias: "c".to_string(),
                        table_name: Some("CAR".to_string())
                    })
                ),
                _ => panic!("expected a node"),
            }
        }
        _ => panic!("expected a relationship"),
    }
}

#[test]
fn schema_inference_misses_an_alias() {
    let schema = space_schema();
    let plan = graph_rel(graph_node("c"), graph_node("u"), "d", "c", "u", Direction::Outgoing);
    let mut no_left = ctx_with(vec![("u", ctx_of(None, false)), ("d", ctx_of(None, true))]);
    assert_eq!(
        SchemaInference::new().analyze_with_graph_schema(plan.clone(), &mut no_left, &schema).err(),
        Some(AnalyzerError::PlanCtx {
            pass: Pass::SchemaInference,
            source: PlanCtxError::MissingNodeTableCtx { alias: "c".to_string() }
        })
    );
    let mut no_rel = ctx_with(vec![("u", ctx_of(None, false)), ("c", ctx_of(None, false))]);
    assert_eq!(
        SchemaInference::new().analyze_with_graph_schema(plan, &mut no_rel, &schema).err(),
        Some(AnalyzerError::PlanCtx {
            pass: Pass::SchemaInference,
            source: PlanCtxError::MissingRelTableCtx { alias: "d".to_string() }
        })
    );
    let mut empty = PlanCtx::default();
    assert_eq!(
        SchemaInference::new().push_inferred_table_names_to_scan(scan("x", None), &mut empty).err(),
        Some(AnalyzerError::PlanCtx {
            pass: Pass::SchemaInference,
            source: PlanCtxError::MissingTableCtx { alias: "x".to_string() }
        })
    );
}

// ---- filter tagging ----

#[test]
fn single_table_conjuncts_move_to_their_alias() {
    let mut ctx = ctx_with(vec![("u", ctx_of(None, false)), ("f", ctx_of(None, true))]);
    let predicate = op(
        Operator::And,
        vec![
            op(Operator::Equal, vec![pa("u", "id"), num(1)]),
            op(Operator::GreaterThan, vec![pa("f", "since"), num(2020)]),
        ],
    );
    let rest = FilterTagging::new().extract_filters(predicate, &mut ctx).unwrap();
    assert_eq!(rest, None);
    assert_eq!(
        ctx.get_table_ctx("u").unwrap().get_filters(),
        &vec![op(Operator::Equal, vec![col("id"), num(1)])]
    );
    assert!(!ctx.get_table_ctx("u").unwrap().use_edge_list);
    assert_eq!(
        ctx.get_table_ctx("f").unwrap().get_filters(),
        &vec![op(Operator::GreaterThan, vec![col("since"), num(2020)])]
    );
    assert!(ctx.get_table_ctx("f").unwrap().use_edge_list);
}

#[test]
fn multi_table_conjuncts_stay_and_project_their_columns() {
    let mut ctx = ctx_with(vec![("u", ctx_of(None, false)), ("v", ctx_of(None, false))]);
    let cross = op(Operator::LessThan, vec![pa("u", "age"), pa("v", "age")]);
    let predicate =
        op(Operator::And, vec![op(Operator::Equal, vec![pa("u", "id"), num(1)]), cross.deep_clone()]);
    let rest = FilterTagging::new().extract_filters(predicate, &mut ctx).unwrap();
    assert_eq!(rest, Some(cross));
    assert_eq!(ctx.get_table_ctx("u").unwrap().get_filters().len(), 1);
    assert_eq!(ctx.get_table_ctx("u").unwrap().get_projections(), &vec![item(pa("u", "age"))]);
    assert_eq!(ctx.get_table_ctx("v").unwrap().get_projections(), &vec![item(pa("v", "age"))]);
    assert!(ctx.get_table_ctx("v").unwrap().get_filters().is_empty());
}

#[test]
fn disjunctions_and_aggregates_stay_in_place() {
    let mut ctx = ctx_with(vec![("u", ctx_of(None, false))]);
    let either = op(
        Operator::Or,
        vec![
            op(Operator::Equal, vec![pa("u", "id"), num(1)]),
            op(Operator::Equal, vec![pa("u", "id"), num(2)]),
        ],
    );
    let counted = op(Operator::GreaterThan, vec![count_of(pa("u", "id")), num(3)]);
    let constant = op(Operator::Equal, vec![num(1), num(1)]);
    let predicate =
        op(Operator::And, vec![either.deep_clone(), counted.deep_clone(), constant.deep_clone()]);
    let rest = FilterTagging::new().extract_filters(predicate, &mut ctx).unwrap();
    assert_eq!(rest, Some(op(Operator::And, vec![either, counted, constant])));
    assert!(ctx.get_table_ctx("u").unwrap().get_filters().is_empty());
    assert!(ctx.get_table_ctx("u").unwrap().get_projections().is_empty());
}

#[test]
fn a_predicate_over_an_unknown_alias_is_an_error() {
    let mut ctx = ctx_with(vec![("u", ctx_of(None, false))]);
    assert_eq!(
        FilterTagging::new()
            .extract_filters(op(Operator::Equal, vec![pa("x", "id"), num(1)]), &mut ctx),
        Err(AnalyzerError::OrphanAlias { pass: Pass::FilterTagging, alias: "x".to_string() })
    );
    assert_eq!(
        FilterTagging::new()
            .extract_filters(op(Operator::Equal, vec![pa("u", "id"), pa("y", "id")]), &mut ctx),
        Err(AnalyzerError::OrphanAlias { pass: Pass::FilterTagging, alias: "y".to_string() })
    );
}

#[test]
fn a_filter_whose_predicate_moved_away_gives_way_to_its_child() {
    let mut ctx = ctx_with(vec![("u", ctx_of(None, false))]);
    let plan = projection(
        filter(graph_node("u"), op(Operator::Equal, vec![pa("u", "id"), num(1)])),
        vec![item(pa("u", "name"))],
    );
    let out = FilterTagging::new().analyze(plan, &mut ctx).unwrap();
    assert!(out.is_yes());
    match out.get_plan().as_ref() {
        LogicalPlan::Projection(p) => assert!(matches!(p.input.as_ref(), LogicalPlan::GraphNode(_))),
        _ => panic!("expected a projection"),
    }
    let untouched = graph_node("u");
    let same = FilterTagging::new().analyze(untouched.clone(), &mut ctx).unwrap();
    assert!(!same.is_yes());
    assert!(Arc::ptr_eq(&same.get_plan(), &untouched));
}

#[test]
fn property_accesses_become_bare_columns() {
    let converted = FilterTagging::new().convert_prop_acc_to_column(op(
        Operator::And,
        vec![
            op(Operator::Equal, vec![pa("u", "id"), num(1)]),
            PlanExpr::List(vec![pa("u", "a"), count_of(pa("u", "b"))]),
        ],
    ));
    assert_eq!(
        converted,
        op(
            Operator::And,
            vec![
                op(Operator::Equal, vec![col("id"), num(1)]),
                PlanExpr::List(vec![col("a"), count_of(col("b"))]),
            ]
        )
    );
}

// ---- projection tagging ----

#[test]
fn returning_an_alias_returns_all_its_columns() {
    let mut ctx = ctx_with(vec![("u", ctx_of(None, false)), ("f", ctx_of(None, true))]);
    let plan = projection(
        graph_node("u"),
        vec![
            item(PlanExpr::TableAlias(TableAlias("f".to_string()))),
            ProjectionItem {
                expression: pa("u", "name"),
                col_alias: Some(brahmand::expr::ColumnAlias("n".to_string())),
            },
            item(op(Operator::Addition, vec![pa("u", "age"), num(1)])),
        ],
    );
    let out = ProjectionTagging::new().analyze(plan, &mut ctx).unwrap().get_plan();
    match out.as_ref() {
        LogicalPlan::Projection(p) => {
            assert_eq!(p.items.len(), 3);
            assert_eq!(p.items[0].expression, pa("f", "*"));
            assert_eq!(p.items[1].expression, pa("u", "name"));
        }
        _ => panic!("expected a projection"),
    }
    let f = ctx.get_table_ctx("f").unwrap();
    assert_eq!(f.get_projections(), &vec![item(PlanExpr::Star)]);
    assert!(f.use_edge_list);
    let u = ctx.get_table_ctx("u").unwrap();
    assert_eq!(u.get_projections().len(), 2);
    assert_eq!(u.get_projections()[0].col_alias, Some(brahmand::expr::ColumnAlias("n".to_string())));
    assert_eq!(u.get_projections()[1], item(pa("u", "age")));
    assert!(!u.use_edge_list);
}

#[test]
fn returning_star_returns_every_alias_that_was_written() {
    let mut ctx = ctx_with(vec![
        ("u", ctx_of(None, false)),
        ("a1234", TableCtx::build(None, vec![], true, false)),
        ("v", ctx_of(None, false)),
    ]);
    let tagging = ProjectionTagging::new();
    assert!(tagging.select_all_present(&vec![item(pa("u", "x")), item(PlanExpr::Star)]));
    assert!(!tagging.select_all_present(&vec![item(pa("u", "x"))]));
    assert_eq!(tagging.get_explicit_aliases(&ctx).len(), 2);
    let plan = projection(graph_node("u"), vec![item(PlanExpr::Star)]);
    let out = tagging.analyze(plan, &mut ctx).unwrap().get_plan();
    match out.as_ref() {
        LogicalPlan::Projection(p) => {
            assert_eq!(p.items, vec![item(pa("u", "*")), item(pa("v", "*"))]);
        }
        _ => panic!("expected a projection"),
    }
    assert!(ctx.get_table_ctx("a1234").unwrap().get_projections().is_empty());
}

#[test]
fn returning_an_unknown_alias_is_an_error() {
    let mut ctx = ctx_with(vec![("u", ctx_of(None, false))]);
    let plan = projection(graph_node("u"), vec![item(count_of(pa("x", "id")))]);
    assert_eq!(
        ProjectionTagging::new().analyze(plan, &mut ctx).err(),
        Some(AnalyzerError::OrphanAlias { pass: Pass::ProjectionTagging, alias: "x".to_string() })
    );
}

// ---- group by ----

#[test]
fn non_aggregates_become_grouping_keys() {
    let mut ctx = PlanCtx::default();
    let plan = projection(
        graph_node("p"),
        vec![item(count_of(pa("p", "*"))), item(pa("p", "author"))],
    );
    let out = GroupByBuilding::new().analyze(plan, &mut ctx).unwrap();
    assert!(out.is_yes());
    match out.get_plan().as_ref() {
        LogicalPlan::GroupBy(g) => {
            assert_eq!(g.expressions, vec![pa("p", "author")]);
            assert!(matches!(g.input.as_ref(), LogicalPlan::Projection(_)));
        }
        _ => panic!("expected a group by"),
    }
    let only_aggregates = projection(graph_node("p"), vec![item(count_of(PlanExpr::Star))]);
    assert!(!GroupByBuilding::new().analyze(only_aggregates, &mut ctx).unwrap().is_yes());
    let no_aggregates = projection(graph_node("p"), vec![item(pa("p", "author"))]);
    assert!(!GroupByBuilding::new().analyze(no_aggregates, &mut ctx).unwrap().is_yes());
}

// ---- anchor node selection ----

#[test]
fn the_alias_with_most_predicates_is_the_anchor() {
    let mut u = ctx_of(None, false);
    u.insert_filter(op(Operator::Equal, vec![col("id"), num(1)]));
    let mut v = ctx_of(None, false);
    v.insert_filter(op(Operator::Equal, vec![col("id"), num(1)]));
    v.insert_filter(op(Operator::Equal, vec![col("age"), num(2)]));
    let ctx = ctx_with(vec![("u", u), ("r", ctx_of(None, true)), ("v", v)]);
    assert_eq!(AnchorNodeSelection::new().find_anchor_node(&ctx), Some("v".to_string()));
    let none = ctx_with(vec![("u", ctx_of(None, false))]);
    assert_eq!(AnchorNodeSelection::new().find_anchor_node(&none), None);
    assert_eq!(AnchorNodeSelection::new().find_anchor_node(&PlanCtx::default()), None);
}

#[test]
fn the_chain_is_rotated_around_the_anchor() {
    // (a)-[r1]->(b)-[r2]->(c): r2 on top, r1 below, a at the start.
    let r1 = graph_rel(graph_node("b"), graph_node("a"), "r1", "b", "a", Direction::Outgoing);
    let r2 = graph_rel(graph_node("c"), r1, "r2", "c", "b", Direction::Outgoing);
    let selection = AnchorNodeSelection::new();

    let rotated = selection.anchor_traversal(&"c".to_string(), &r2);
    assert!(rotated.is_yes());
    match rotated.get_plan().as_ref() {
        LogicalPlan::GraphRel(top) => {
            assert_eq!(top.alias, "r1");
            assert_eq!(top.direction, Direction::Incoming);
            assert_eq!(top.left_connection, "a");
            assert_eq!(top.right_connection, "b");
            assert!(matches!(top.left.as_ref(), LogicalPlan::GraphNode(n) if n.alias == "a"));
            match top.right.as_ref() {
                LogicalPlan::GraphRel(inner) => {
                    assert_eq!(inner.alias, "r2");
                    assert_eq!(inner.direction, Direction::Incoming);
                    assert_eq!(inner.left_connection, "b");
                    assert_eq!(inner.right_connection, "c");
                    assert!(matches!(inner.left.as_ref(), LogicalPlan::GraphNode(n) if n.alias == "b"));
                    assert!(matches!(inner.right.as_ref(), LogicalPlan::GraphNode(n) if n.alias == "c"));
                }
                _ => panic!("expected the anchor relationship below"),
            }
        }
        _ => panic!("expected a relationship"),
    }

    let start = selection.anchor_traversal(&"a".to_string(), &r2);
    assert!(!start.is_yes());
    assert!(Arc::ptr_eq(&start.get_plan(), &r2));
    let unchanged = selection.anchor_traversal(&"b".to_string(), &r2);
    assert!(!unchanged.is_yes());
    assert!(Arc::ptr_eq(&unchanged.get_plan(), &r2));

    let promoted = selection.anchor_traversal(&"r2".to_string(), &r2);
    match promoted.get_plan().as_ref() {
        LogicalPlan::GraphRel(top) => {
            assert_eq!(top.alias, "r1");
            match top.right.as_ref() {
                LogicalPlan::GraphRel(inner) => {
                    assert!(inner.is_rel_anchor);
                    assert!(matches!(inner.center.as_ref(), LogicalPlan::GraphNode(n) if n.alias == "c"));
                    assert!(matches!(inner.right.as_ref(), LogicalPlan::Scan(s) if s.table_alias == "r2"));
                }
                _ => panic!("expected the promoted relationship below"),
            }
        }
        _ => panic!("expected a relationship"),
    }
}

#[test]
fn a_relationship_that_keeps_its_sides_keeps_its_direction() {
    // (a)-[r1]->(b), (a)-[r2]->(c): both relationships end at a.
    let r1 = graph_rel(graph_node("b"), graph_node("a"), "r1", "b", "a", Direction::Outgoing);
    let r2 = graph_rel(graph_node("c"), r1, "r2", "c", "a", Direction::Outgoing);
    let rotated = AnchorNodeSelection::new().anchor_traversal(&"c".to_string(), &r2);
    assert!(rotated.is_yes());
    match rotated.get_plan().as_ref() {
        LogicalPlan::GraphRel(top) => {
            assert_eq!(top.alias, "r1");
            assert_eq!(top.direction, Direction::Outgoing);
            assert_eq!(top.left_connection, "b");
            assert_eq!(top.right_connection, "a");
            assert!(matches!(top.left.as_ref(), LogicalPlan::GraphNode(n) if n.alias == "b"));
            match top.right.as_ref() {
                LogicalPlan::GraphRel(inner) => {
                    assert_eq!(inner.alias, "r2");
                    assert_eq!(inner.direction, Direction::Incoming);
                    assert_eq!(inner.left_connection, "a");
                    assert_eq!(inner.right_connection, "c");
                    assert!(matches!(inner.left.as_ref(), LogicalPlan::GraphNode(n) if n.alias == "a"));
                    assert!(matches!(inner.right.as_ref(), LogicalPlan::GraphNode(n) if n.alias == "c"));
                }
                _ => panic!("expected the anchor relationship below"),
            }
        }
        _ => panic!("expected a relationship"),
    }
}

#[test]
fn an_anchor_below_the_first_relationship_is_rotated_there() {
    // (a)-[r1]->(b)-[r2]->(c)-[r3]->(d), anchor b.
    let r1 = graph_rel(graph_node("b"), graph_node("a"), "r1", "b", "a", Direction::Outgoing);
    let r2 = graph_rel(graph_node("c"), r1, "r2", "c", "b", Direction::Outgoing);
    let r3 = graph_rel(graph_node("d"), r2.clone(), "r3", "d", "c", Direction::Outgoing);
    let selection = AnchorNodeSelection::new();

    let rotated = selection.anchor_traversal(&"b".to_string(), &r3);
    assert!(rotated.is_yes());
    match rotated.get_plan().as_ref() {
        LogicalPlan::GraphRel(top) => {
            assert_eq!(top.alias, "r3");
            assert_eq!(top.direction, Direction::Outgoing);
            match top.right.as_ref() {
                LogicalPlan::GraphRel(middle) => {
                    assert_eq!(middle.alias, "r2");
                    assert_eq!((middle.left_connection.as_str(), middle.right_connection.as_str()), ("c", "b"));
                    match middle.right.as_ref() {
                        LogicalPlan::GraphRel(low) => {
                            assert_eq!(low.alias, "r1");
                            assert_eq!(low.direction, Direction::Incoming);
                            assert_eq!((low.left_connection.as_str(), low.right_connection.as_str()), ("a", "b"));
                            assert!(matches!(low.left.as_ref(), LogicalPlan::GraphNode(n) if n.alias == "a"));
                            assert!(matches!(low.right.as_ref(), LogicalPlan::GraphNode(n) if n.alias == "b"));
                        }
                        _ => panic!("expected the rotated relationship"),
                    }
                }
                _ => panic!("expected the middle relationship"),
            }
        }
        _ => panic!("expected a relationship"),
    }

    // The first relationship ends at c: the plan stays.
    let kept = selection.anchor_traversal(&"c".to_string(), &r3);
    assert!(!kept.is_yes());
    assert!(Arc::ptr_eq(&kept.get_plan(), &r3));
}

// ---- push down ----

#[test]
fn scans_are_wrapped_in_their_filters_and_projections() {
    let mut u = ctx_of(Some("User"), false);
    u.insert_filter(op(Operator::Equal, vec![col("id"), num(1)]));
    u.insert_filter(op(Operator::Equal, vec![col("age"), num(2)]));
    u.insert_filter(op(Operator::Equal, vec![col("zip"), num(3)]));
    u.insert_projection(item(pa("u", "name")));
    let mut ctx = ctx_with(vec![("u", u), ("v", ctx_of(None, false))]);
    let plan = graph_rel(graph_node("v"), graph_node("u"), "r", "v", "u", Direction::Either);

    let filtered = FilterPushDown::new().optimize(plan.clone(), &mut ctx).unwrap();
    assert!(filtered.is_yes());
    let expected = op(
        Operator::And,
        vec![
            op(
                Operator::And,
                vec![
                    op(Operator::Equal, vec![col("id"), num(1)]),
                    op(Operator::Equal, vec![col("age"), num(2)]),
                ],
            ),
            op(Operator::Equal, vec![col("zip"), num(3)]),
        ],
    );
    match filtered.get_plan().as_ref() {
        LogicalPlan::GraphRel(rel) => {
            assert!(Arc::ptr_eq(&rel.left, match plan.as_ref() {
                LogicalPlan::GraphRel(r) => &r.left,
                _ => panic!("expected a relationship"),
            }));
            match rel.right.as_ref() {
                LogicalPlan::GraphNode(n) => match n.input.as_ref() {
                    LogicalPlan::Filter(f) => {
                        assert_eq!(f.predicate, expected);
                        assert!(matches!(f.input.as_ref(), LogicalPlan::Scan(_)));
                    }
                    _ => panic!("expected a filter"),
                },
                _ => panic!("expected a node"),
            }
        }
        _ => panic!("expected a relationship"),
    }
    assert_eq!(FilterPushDown::new().get_combined_predicate(vec![]), None);
    assert_eq!(FilterPushDown::new().get_combined_predicate(vec![num(1)]), Some(num(1)));

    let projected = ProjectionPushDown::new().optimize(plan, &mut ctx).unwrap();
    match projected.get_plan().as_ref() {
        LogicalPlan::GraphRel(rel) => match rel.right.as_ref() {
            LogicalPlan::GraphNode(n) => match n.input.as_ref() {
                LogicalPlan::Projection(p) => assert_eq!(p.items, vec![item(pa("u", "name"))]),
                _ => panic!("expected a projection"),
            },
            _ => panic!("expected a node"),
        },
        _ => panic!("expected a relationship"),
    }
}

#[test]
fn push_down_without_pending_items_changes_nothing_twice() {
    let mut ctx = ctx_with(vec![("u", ctx_of(None, false))]);
    let plan = projection(graph_node("u"), vec![item(pa("u", "name"))]);
    let once = FilterPushDown::new().optimize(plan.clone(), &mut ctx).unwrap();
    assert!(!once.is_yes());
    let twice = FilterPushDown::new().optimize(once.get_plan(), &mut ctx).unwrap();
    assert!(!twice.is_yes());
    assert!(Arc::ptr_eq(&twice.get_plan(), &plan));
    let once = ProjectionPushDown::new().optimize(plan.clone(), &mut ctx).unwrap();
    let twice = ProjectionPushDown::new().optimize(once.get_plan(), &mut ctx).unwrap();
    assert!(!twice.is_yes());
    assert!(Arc::ptr_eq(&twice.get_plan(), &plan));
}

// ---- duplicate scans, last node ----

#[test]
fn a_union_is_walked_input_by_input() {
    let mut ctx = PlanCtx::default();
    let first = graph_rel(graph_node("b"), graph_node("a"), "r1", "b", "a", Direction::Outgoing);
    let second = graph_rel(graph_node("a"), graph_node("c"), "r2", "a", "c", Direction::Outgoing);
    let plan = Arc::new(LogicalPlan::Union(Union { inputs: vec![first, second] }));
    let out = DuplicateScansRemoving::new().analyze(plan, &mut ctx).unwrap();
    assert!(out.is_yes());
    match out.get_plan().as_ref() {
        LogicalPlan::Union(u) => {
            assert!(matches!(u.inputs[0].as_ref(), LogicalPlan::GraphRel(r) if !matches!(r.left.as_ref(), LogicalPlan::Empty)));
            assert!(matches!(u.inputs[1].as_ref(), LogicalPlan::GraphRel(r) if matches!(r.left.as_ref(), LogicalPlan::Empty)));
        }
        _ => panic!("expected a union"),
    }
    let mut traversed = vec!["b".to_string()];
    let chain = graph_rel(graph_node("b"), graph_node("a"), "r1", "b", "a", Direction::Outgoing);
    let out = DuplicateScansRemoving::new().remove_duplicate_scans(&chain, &mut traversed);
    assert!(out.is_yes());
    assert!(traversed.contains(&"a".to_string()));
}

#[test]
fn the_last_node_is_the_leftmost_node() {
    let mut ctx = PlanCtx::default();
    let plan = projection(
        graph_rel(graph_node("v"), graph_node("u"), "r", "v", "u", Direction::Either),
        vec![],
    );
    let out = LastNodeTagging::new().analyze(plan.clone(), &mut ctx).unwrap();
    assert!(!out.is_yes());
    assert_eq!(ctx.get_last_node(), "v");
    let other = graph_node("w");
    LastNodeTagging::new().analyze(other, &mut ctx).unwrap();
    assert_eq!(ctx.get_last_node(), "v");
    let mut fresh = PlanCtx::default();
    let no_left = Arc::new(LogicalPlan::GraphRel(GraphRel {
        left: Arc::new(LogicalPlan::Empty),
        center: scan("r", None),
        right: graph_node("u"),
        alias: "r".to_string(),
        direction: Direction::Either,
        left_connection: "v".to_string(),
        right_connection: "u".to_string(),
        is_rel_anchor: false,
    }));
    LastNodeTagging::new().analyze(no_left, &mut fresh).unwrap();
    assert_eq!(fresh.get_last_node(), "u");
}

// ---- traversal planning ----

fn follows_schema() -> GraphSchema {
    GraphSchema::build(
        1,
        vec![node_schema("User", &["id", "name"]), node_schema("Post", &["id", "title"])],
        vec![rel_schema("FOLLOWS", "User", "User"), rel_schema("CREATED", "User", "Post")],
    )
}

fn rel_of(plan: &Arc<LogicalPlan>) -> &GraphRel {
    match plan.as_ref() {
        LogicalPlan::GraphRel(rel) => rel,
        _ => panic!("expected a relationship"),
    }
}

fn cte_name(plan: &Arc<LogicalPlan>) -> &str {
    match plan.as_ref() {
        LogicalPlan::Cte(cte) => &cte.name,
        _ => panic!("expected a cte"),
    }
}

#[test]
fn generated_aliases_have_their_form() {
    let alias = generate_id();
    assert_eq!(alias.len(), 11);
    assert!(alias.starts_with('a'));
    assert!(alias[1..].chars().all(|c| c.is_ascii_digit() || ('a'..='f').contains(&c)));
    assert_ne!(generate_id(), generate_id());
    assert_eq!(alias_from_hex("0123456789abcdef"), "a0123456789");
}

#[test]
fn a_bitmap_read_goes_by_the_from_side() {
    let schema = follows_schema();
    let ctx = ctx_with(vec![
        ("u", ctx_of(Some("User"), false)),
        ("c", ctx_of(Some("CREATED"), true)),
        ("p", ctx_of(Some("Post"), false)),
    ]);
    // (u)-[c]->(p): p joins first at the left, u is the right connection.
    let plan = graph_rel(graph_node("p"), graph_node("u"), "c", "p", "u", Direction::Outgoing);
    let planning = GraphTRaversalPlanning::new();
    let (new_rel, updates) = planning
        .infer_traversal(rel_of(&plan), &ctx, &schema, true, &"aout".to_string(), &"ain".to_string())
        .unwrap();
    assert_eq!(cte_name(&new_rel.left), "Post_p");
    assert_eq!(cte_name(&new_rel.center), "CREATED_outgoing_c");
    assert_eq!(cte_name(&new_rel.right), "User_u");
    assert_eq!(updates.len(), 3);
    assert_eq!(updates[0].alias, "c");
    assert_eq!(updates[0].label, "CREATED_outgoing");
    assert_eq!(
        updates[0].projections,
        vec![
            item(col("from_id")),
            ProjectionItem {
                expression: col("arrayJoin(bitmapToArray(to_id))"),
                col_alias: Some(brahmand::expr::ColumnAlias("to_id".to_string())),
            },
        ]
    );
    assert_eq!(updates[0].insubquery, Some(insub("from_id", "User_u", "id")));
    assert_eq!(updates[1].alias, "p");
    assert_eq!(updates[1].projections, vec![item(col("id"))]);
    assert_eq!(updates[1].insubquery, Some(insub("id", "CREATED_outgoing_c", "to_id")));
    assert_eq!(updates[2].alias, "u");
    assert_eq!(updates[2].insubquery, None);

    // Not the first of the traversal: the right child is left as it is.
    let (inner, updates) = planning
        .infer_traversal(rel_of(&plan), &ctx, &schema, false, &"aout".to_string(), &"ain".to_string())
        .unwrap();
    assert!(matches!(inner.right.as_ref(), LogicalPlan::GraphNode(_)));
    assert_eq!(updates.len(), 2);

    // The other way round the index of incoming edges is read.
    let back = graph_rel(graph_node("u"), graph_node("p"), "c", "u", "p", Direction::Incoming);
    let (new_rel, _) = planning
        .infer_traversal(rel_of(&back), &ctx, &schema, true, &"aout".to_string(), &"ain".to_string())
        .unwrap();
    assert_eq!(cte_name(&new_rel.center), "CREATED_incoming_c");
}

#[test]
fn an_edge_list_read_exposes_from_and_to() {
    let schema = follows_schema();
    let mut created = ctx_of(Some("CREATED"), true);
    created.set_use_edge_list(true);
    let mut post = ctx_of(Some("Post"), false);
    post.insert_projection(item(pa("p", "id")));
    let ctx = ctx_with(vec![("u", ctx_of(Some("User"), false)), ("c", created), ("p", post)]);
    let plan = graph_rel(graph_node("p"), graph_node("u"), "c", "p", "u", Direction::Outgoing);
    let planning = GraphTRaversalPlanning::new();
    let (new_rel, updates) = planning
        .infer_traversal(rel_of(&plan), &ctx, &schema, true, &"aout".to_string(), &"ain".to_string())
        .unwrap();
    assert_eq!(cte_name(&new_rel.center), "CREATED_c");
    assert_eq!(updates[0].label, "CREATED");
    assert_eq!(
        updates[0].projections,
        vec![
            ProjectionItem {
                expression: col("from_User"),
                col_alias: Some(brahmand::expr::ColumnAlias("from_id".to_string())),
            },
            ProjectionItem {
                expression: col("to_Post"),
                col_alias: Some(brahmand::expr::ColumnAlias("to_id".to_string())),
            },
        ]
    );
    assert_eq!(updates[0].insubquery, Some(insub("from_id", "User_u", "id")));
    assert_eq!(updates[1].alias, "p");
    assert!(updates[1].projections.is_empty());
    assert_eq!(updates[1].insubquery, Some(insub("id", "CREATED_c", "to_id")));
}

#[test]
fn either_direction_reads_both_ways() {
    let schema = follows_schema();
    let ctx = ctx_with(vec![
        ("a", ctx_of(Some("User"), false)),
        ("f", ctx_of(Some("FOLLOWS"), true)),
        ("b", ctx_of(Some("User"), false)),
    ]);
    let plan = graph_rel(graph_node("b"), graph_node("a"), "f", "b", "a", Direction::Either);
    let planning = GraphTRaversalPlanning::new();
    let (new_rel, updates) = planning
        .infer_traversal(rel_of(&plan), &ctx, &schema, true, &"aout".to_string(), &"ain".to_string())
        .unwrap();
    assert_eq!(cte_name(&new_rel.center), "FOLLOWS_either_f");
    match new_rel.center.as_ref() {
        LogicalPlan::Cte(cte) => match cte.input.as_ref() {
            LogicalPlan::Union(u) => {
                assert_eq!(
                    u.inputs[0].as_ref(),
                    &LogicalPlan::Scan(Scan {
                        table_alias: "aout".to_string(),
                        table_name: Some("FOLLOWS_outgoing".to_string())
                    })
                );
                assert_eq!(
                    u.inputs[1].as_ref(),
                    &LogicalPlan::Scan(Scan {
                        table_alias: "ain".to_string(),
                        table_name: Some("FOLLOWS_incoming".to_string())
                    })
                );
            }
            _ => panic!("expected a union"),
        },
        _ => panic!("expected a cte"),
    }
    assert_eq!(updates.len(), 5);
    assert_eq!(updates[0].alias, "f");
    assert_eq!(updates[0].label, "FOLLOWS_either");
    assert_eq!(updates[1].alias, "aout");
    assert_eq!(updates[1].label, "FOLLOWS_outgoing");
    assert_eq!(updates[2].alias, "ain");
}

fn ctx_miss(pass: Pass, source: PlanCtxError) -> Option<AnalyzerError> {
    Some(AnalyzerError::PlanCtx { pass, source })
}

fn schema_miss(pass: Pass, source: GraphSchemaError) -> Option<AnalyzerError> {
    Some(AnalyzerError::GraphSchema { pass, source })
}

fn missing_in_order(pass: Pass, run: &dyn Fn(Vec<(&str, TableCtx)>) -> Option<AnalyzerError>) {
    let alias = |a: &str| a.to_string();
    // Contexts first: left, relationship, right.
    assert_eq!(run(vec![]), ctx_miss(pass, PlanCtxError::MissingNodeTableCtx { alias: alias("p") }));
    assert_eq!(
        run(vec![("p", ctx_of(Some("Planet"), false))]),
        ctx_miss(pass, PlanCtxError::MissingRelTableCtx { alias: alias("c") })
    );
    assert_eq!(
        run(vec![("p", ctx_of(None, false)), ("c", ctx_of(None, true))]),
        ctx_miss(pass, PlanCtxError::MissingNodeTableCtx { alias: alias("u") })
    );
    // Then labels.
    assert_eq!(
        run(vec![
            ("p", ctx_of(None, false)),
            ("c", ctx_of(None, true)),
            ("u", ctx_of(None, false))
        ]),
        ctx_miss(pass, PlanCtxError::MissingLabel { alias: alias("p") })
    );
    assert_eq!(
        run(vec![
            ("p", ctx_of(Some("Planet"), false)),
            ("c", ctx_of(None, true)),
            ("u", ctx_of(None, false))
        ]),
        ctx_miss(pass, PlanCtxError::MissingLabel { alias: alias("c") })
    );
    assert_eq!(
        run(vec![
            ("p", ctx_of(Some("Planet"), false)),
            ("c", ctx_of(Some("LIKES"), true)),
            ("u", ctx_of(None, false))
        ]),
        ctx_miss(pass, PlanCtxError::MissingLabel { alias: alias("u") })
    );
    // Then schemas.
    assert_eq!(
        run(vec![
            ("p", ctx_of(Some("Planet"), false)),
            ("c", ctx_of(Some("LIKES"), true)),
            ("u", ctx_of(Some("Alien"), false))
        ]),
        schema_miss(pass, GraphSchemaError::NoNodeSchemaFound { node_label: alias("Planet") })
    );
    assert_eq!(
        run(vec![
            ("p", ctx_of(Some("Post"), false)),
            ("c", ctx_of(Some("LIKES"), true)),
            ("u", ctx_of(Some("Alien"), false))
        ]),
        schema_miss(pass, GraphSchemaError::NoRelationSchemaFound { rel_label: alias("LIKES") })
    );
    assert_eq!(
        run(vec![
            ("p", ctx_of(Some("Post"), false)),
            ("c", ctx_of(Some("CREATED"), true)),
            ("u", ctx_of(Some("Alien"), false))
        ]),
        schema_miss(pass, GraphSchemaError::NoNodeSchemaFound { node_label: alias("Alien") })
    );
    assert_eq!(
        run(vec![
            ("p", ctx_of(Some("Post"), false)),
            ("c", ctx_of(Some("CREATED"), true)),
            ("u", ctx_of(Some("User"), false))
        ]),
        None
    );
}

#[test]
fn traversal_planning_needs_labels_and_schemas() {
    let schema = follows_schema();
    let plan = graph_rel(graph_node("p"), graph_node("u"), "c", "p", "u", Direction::Outgoing);
    let planning = GraphTRaversalPlanning::new();
    missing_in_order(Pass::GraphTraversalPlanning, &|entries| {
        planning
            .infer_traversal(
                rel_of(&plan),
                &ctx_with(entries),
                &schema,
                true,
                &"aout".to_string(),
                &"ain".to_string(),
            )
            .err()
    });
}

#[test]
fn planning_updates_the_context() {
    let schema = follows_schema();
    let mut ctx = ctx_with(vec![
        ("u", ctx_of(Some("User"), false)),
        ("c", ctx_of(Some("CREATED"), true)),
        ("p", ctx_of(Some("Post"), false)),
    ]);
    let plan = projection(
        graph_rel(graph_node("p"), graph_node("u"), "c", "p", "u", Direction::Outgoing),
        vec![item(pa("p", "title"))],
    );
    let out = GraphTRaversalPlanning::new()
        .analyze_with_graph_schema(plan, &mut ctx, &schema)
        .unwrap();
    assert!(out.is_yes());
    assert_eq!(ctx.get_table_ctx("c").unwrap().label, Some("CREATED_outgoing".to_string()));
    assert_eq!(ctx.get_table_ctx("c").unwrap().get_filters(), &vec![insub("from_id", "User_u", "id")]);
    assert_eq!(ctx.get_table_ctx("u").unwrap().get_projections(), &vec![item(col("id"))]);
    let same = GraphTRaversalPlanning::new()
        .analyze_with_graph_schema(graph_node("u"), &mut ctx, &schema)
        .unwrap();
    assert!(!same.is_yes());
}

// ---- join inference ----

fn eq(a: &str, a_col: &str, b: &str, b_col: &str) -> OperatorApplication {
    OperatorApplication { operator: Operator::Equal, operands: vec![pa(a, a_col), pa(b, b_col)] }
}

#[test]
fn direction_suffixes_are_stripped_from_labels() {
    assert_eq!(base_label(&"FOLLOWS_outgoing".to_string()), "FOLLOWS");
    assert_eq!(base_label(&"FOLLOWS_incoming".to_string()), "FOLLOWS");
    assert_eq!(base_label(&"FOLLOWS_either".to_string()), "FOLLOWS");
    assert_eq!(base_label(&"FOLLOWS".to_string()), "FOLLOWS");
    assert_eq!(base_label(&"IS_FROM".to_string()), "IS_FROM");
    assert_eq!(base_label(&"_either".to_string()), "");
}

#[test]
fn joins_go_from_the_joined_side() {
    let schema = follows_schema();
    let mut ctx = ctx_with(vec![
        ("u", ctx_of(Some("User"), false)),
        ("c", ctx_of(Some("CREATED_outgoing"), true)),
        ("p", ctx_of(Some("Post"), false)),
    ]);
    let plan = projection(
        graph_rel(graph_node("p"), graph_node("u"), "c", "p", "u", Direction::Outgoing),
        vec![item(pa("p", "title"))],
    );
    let out = GraphJoinInference::new()
        .analyze_with_graph_schema(plan.clone(), &mut ctx, &schema)
        .unwrap();
    match out.get_plan().as_ref() {
        LogicalPlan::GraphJoins(joins) => {
            assert!(Arc::ptr_eq(&joins.input, &plan));
            assert_eq!(
                joins.joins,
                vec![
                    Join {
                        table_name: "CREATED_outgoing_c".to_string(),
                        table_alias: "c".to_string(),
                        joining_on: vec![eq("c", "to_id", "p", "id")],
                    },
                    Join {
                        table_name: "User_u".to_string(),
                        table_alias: "u".to_string(),
                        joining_on: vec![eq("u", "id", "c", "from_id")],
                    },
                ]
            );
        }
        _ => panic!("expected graph joins"),
    }

    let inference = GraphJoinInference::new();
    let mut collected = vec![];
    let mut joined = vec!["u".to_string()];
    inference
        .infer_graph_join(
            rel_of(&graph_rel(graph_node("p"), graph_node("u"), "c", "p", "u", Direction::Outgoing)),
            &ctx,
            &schema,
            &mut collected,
            &mut joined,
        )
        .unwrap();
    assert_eq!(collected[0].joining_on, vec![eq("c", "from_id", "u", "id")]);
    assert_eq!(collected[1].table_alias, "p");
    assert_eq!(collected[1].joining_on, vec![eq("p", "id", "c", "to_id")]);
    assert!(joined.contains(&"c".to_string()) && joined.contains(&"p".to_string()));

    let no_rel = graph_node("u");
    assert!(!inference
        .analyze_with_graph_schema(no_rel, &mut ctx, &schema)
        .unwrap()
        .is_yes());
}

#[test]
fn an_edge_list_join_goes_by_the_schema() {
    let schema = follows_schema();
    let mut created = ctx_of(Some("CREATED"), true);
    created.set_use_edge_list(true);
    let ctx = ctx_with(vec![("u", ctx_of(Some("User"), false)), ("c", created), ("p", ctx_of(Some("Post"), false))]);
    let inference = GraphJoinInference::new();
    let mut collected = vec![];
    let mut joined = vec![];
    // from_node (User) is the right node, and the left is joined first.
    inference
        .infer_graph_join(
            rel_of(&graph_rel(graph_node("p"), graph_node("u"), "c", "p", "u", Direction::Outgoing)),
            &ctx,
            &schema,
            &mut collected,
            &mut joined,
        )
        .unwrap();
    assert_eq!(collected[0].table_name, "CREATED_c");
    assert_eq!(collected[0].joining_on, vec![eq("c", "to_id", "p", "id")]);
    assert_eq!(collected[1].joining_on, vec![eq("u", "id", "c", "from_id")]);

    // A standalone relationship has both equalities in its one join.
    let standalone = Arc::new(LogicalPlan::GraphRel(GraphRel {
        left: Arc::new(LogicalPlan::Empty),
        center: scan("c", None),
        right: graph_node("u"),
        alias: "c".to_string(),
        direction: Direction::Outgoing,
        left_connection: "p".to_string(),
        right_connection: "u".to_string(),
        is_rel_anchor: false,
    }));
    let mut collected = vec![];
    let mut joined = vec!["u".to_string(), "p".to_string()];
    inference
        .infer_graph_join(rel_of(&standalone), &ctx, &schema, &mut collected, &mut joined)
        .unwrap();
    assert_eq!(collected.len(), 1);
    assert_eq!(
        collected[0].joining_on,
        vec![eq("c", "from_id", "u", "id"), eq("c", "to_id", "p", "id")]
    );
}

#[test]
fn join_inference_reports_what_is_missing() {
    let schema = follows_schema();
    let plan = graph_rel(graph_node("p"), graph_node("u"), "c", "p", "u", Direction::Outgoing);
    let inference = GraphJoinInference::new();
    missing_in_order(Pass::GraphJoinInference, &|entries| {
        let mut ctx = ctx_with(entries);
        inference.analyze_with_graph_schema(plan.clone(), &mut ctx, &schema).err()
    });
    let mut ctx = ctx_with(vec![
        ("p", ctx_of(Some("Post"), false)),
        ("c", ctx_of(Some("LIKES_incoming"), true)),
        ("u", ctx_of(Some("User"), false)),
    ]);
    assert_eq!(
        inference.analyze_with_graph_schema(plan, &mut ctx, &schema).err(),
        Some(AnalyzerError::GraphSchema {
            pass: Pass::GraphJoinInference,
            source: GraphSchemaError::NoRelationSchemaFound { rel_label: "LIKES".to_string() }
        })
    );
}

#[test]
fn joins_are_sorted_by_their_number_of_equalities() {
    let join = |alias: &str, n: usize| Join {
        table_name: alias.to_string(),
        table_alias: alias.to_string(),
        joining_on: (0..n).map(|_| eq("a", "x", "b", "y")).collect(),
    };
    let sorted = sort_by_on_len(&vec![join("a", 2), join("b", 1), join("c", 2), join("d", 1), join("e", 0)]);
    let order: Vec<&str> = sorted.iter().map(|j| j.table_alias.as_str()).collect();
    assert_eq!(order, vec!["e", "b", "d", "a", "c"]);
    assert!(sort_by_on_len(&vec![]).is_empty());
}

// ---- render plan ----

#[test]
fn the_anchor_filter_loses_its_subqueries() {
    let sub = insub("id", "FOLLOWS_f", "to_id");
    assert_eq!(clean_last_node_filters(&sub), None);
    let kept = op(Operator::Equal, vec![col("id"), num(1)]);
    assert_eq!(
        clean_last_node_filters(&op(Operator::And, vec![kept.deep_clone(), sub.deep_clone()])),
        Some(kept.deep_clone())
    );
    assert_eq!(clean_last_node_filters(&op(Operator::And, vec![sub.deep_clone(), sub.deep_clone()])), None);
    assert_eq!(
        clean_last_node_filters(&op(
            Operator::And,
            vec![kept.deep_clone(), sub.deep_clone(), kept.deep_clone()]
        )),
        Some(op(Operator::And, vec![kept.deep_clone(), kept.deep_clone()]))
    );
    assert_eq!(clean_last_node_filters(&PlanExpr::List(vec![sub.deep_clone()])), None);
    assert_eq!(clean_last_node_filters(&count_of(sub.deep_clone())), None);
    assert_eq!(clean_last_node_filters(&count_of(col("id"))), Some(count_of(col("id"))));
    assert_eq!(clean_last_node_filters(&num(1)), Some(num(1)));
}

#[test]
fn only_a_conjunction_or_disjunction_gives_way_to_its_survivor() {
    let sub = insub("id", "FOLLOWS_f", "to_id");
    let email = op(Operator::IsNotNull, vec![col("email")]);
    assert_eq!(clean_last_node_filters(&email), Some(email.deep_clone()));
    let not_x = op(Operator::Not, vec![col("x")]);
    assert_eq!(clean_last_node_filters(&not_x), Some(not_x.deep_clone()));
    let is_null = op(Operator::IsNull, vec![col("x")]);
    assert_eq!(clean_last_node_filters(&is_null), Some(is_null.deep_clone()));

    // A conjunction of one operand that lost nothing stays as it is.
    let lone = op(Operator::And, vec![col("x")]);
    assert_eq!(clean_last_node_filters(&lone), Some(lone.deep_clone()));
    assert_eq!(
        clean_last_node_filters(&op(Operator::Or, vec![sub.deep_clone(), email.deep_clone()])),
        Some(email.deep_clone())
    );
    assert_eq!(
        clean_last_node_filters(&op(
            Operator::And,
            vec![email.deep_clone(), op(Operator::Or, vec![sub.deep_clone(), not_x.deep_clone()])]
        )),
        Some(op(Operator::And, vec![email.deep_clone(), not_x.deep_clone()]))
    );

    // Another operator stays around what is left of its operands.
    assert_eq!(
        clean_last_node_filters(&op(Operator::Equal, vec![col("x"), sub.deep_clone()])),
        Some(op(Operator::Equal, vec![col("x")]))
    );
    assert_eq!(clean_last_node_filters(&op(Operator::Not, vec![sub.deep_clone()])), None);
    assert_eq!(
        clean_last_node_filters(&PlanExpr::List(vec![col("x"), sub.deep_clone()])),
        Some(PlanExpr::List(vec![col("x")]))
    );

    // What has no operands has lost none.
    let now = PlanExpr::ScalarFnCall(ScalarFnCall { name: "now".to_string(), args: vec![] });
    assert_eq!(clean_last_node_filters(&now), Some(now.deep_clone()));
    assert_eq!(
        clean_last_node_filters(&PlanExpr::List(vec![])),
        Some(PlanExpr::List(vec![]))
    );
}

fn node_over(alias: &str, input: Arc<LogicalPlan>) -> Arc<LogicalPlan> {
    Arc::new(LogicalPlan::GraphNode(GraphNode {
        input,
        alias: alias.to_string(),
        down_connection: None,
    }))
}

fn cte(name: &str, input: Arc<LogicalPlan>) -> Arc<LogicalPlan> {
    Arc::new(LogicalPlan::Cte(Cte { input, name: name.to_string() }))
}

#[test]
fn the_last_node_is_told_by_its_graph_node() {
    // The label holds an underscore: the name of the CTE says nothing.
    let left = cte(
        "Blog_Post_p",
        node_over("p", projection(scan("p", Some("Blog_Post")), vec![item(col("id"))])),
    );
    let right = cte(
        "User_u",
        node_over("u", projection(scan("u", Some("User")), vec![item(col("id"))])),
    );
    let center = cte(
        "WROTE_outgoing_w",
        projection(scan("w", Some("WROTE_outgoing")), vec![item(col("from_id"))]),
    );
    let rel = Arc::new(LogicalPlan::GraphRel(GraphRel {
        left,
        center,
        right,
        alias: "w".to_string(),
        direction: Direction::Outgoing,
        left_connection: "p".to_string(),
        right_connection: "u".to_string(),
        is_rel_anchor: false,
    }));
    let plan = projection(rel.clone(), vec![item(pa("p", "title"))]);

    assert_eq!(plan.extract_last_node_alias(), Some("p".to_string()));
    assert_eq!(plan.extract_last_node_cte().unwrap().cte_name, "Blog_Post_p");
    let render = plan.to_render_plan().unwrap();
    let names: Vec<&str> = render.ctes.0.iter().map(|c| c.cte_name.as_str()).collect();
    assert_eq!(names, vec!["User_u", "WROTE_outgoing_w"]);
    let from = render.from.0.as_ref().unwrap();
    assert_eq!(from.table_name, "Blog_Post");
    assert_eq!(from.table_alias, Some("p".to_string()));

    // The CTE of the last node is left out wherever it stands.
    let listed = rel.extract_ctes("u").unwrap();
    let names: Vec<&str> = listed.iter().map(|c| c.cte_name.as_str()).collect();
    assert_eq!(names, vec!["WROTE_outgoing_w", "Blog_Post_p"]);

    // A graph node above the CTE tells the alias as well.
    let above = node_over("q", cte("Anything", projection(scan("q", Some("T")), vec![item(col("id"))])));
    assert_eq!(above.extract_last_node_alias(), Some("q".to_string()));
    assert!(above.extract_ctes("q").unwrap().is_empty());
    assert_eq!(scan("u", None).extract_last_node_alias(), None);
}

#[test]
fn render_plans_need_a_table_and_select_items() {
    assert_eq!(
        projection(Arc::new(LogicalPlan::Empty), vec![item(num(1))]).to_render_plan().err(),
        Some(RenderBuildError::MissingFromTable)
    );
    assert_eq!(
        scan("u", Some("User")).to_render_plan().err(),
        Some(RenderBuildError::MissingSelectItems)
    );
    // A CTE that belongs to no graph node names no alias.
    let ownerless = projection(
        cte("User_u", projection(scan("u", Some("User")), vec![item(col("id"))])),
        vec![item(pa("u", "id"))],
    );
    assert_eq!(ownerless.to_render_plan().err(), Some(RenderBuildError::MalformedCTEName));
    let empty_cte = graph_rel(
        cte("User_v", node_over("v", projection(scan("v", Some("User")), vec![item(col("id"))]))),
        cte("User_u", node_over("u", scan("u", Some("User")))),
        "r",
        "v",
        "u",
        Direction::Either,
    );
    assert_eq!(
        projection(empty_cte, vec![item(pa("v", "id"))]).to_render_plan().err(),
        Some(RenderBuildError::MissingSelectItems)
    );
}

#[test]
fn a_render_plan_takes_each_clause_from_its_node() {
    let plan = Arc::new(LogicalPlan::Limit(Limit {
        input: Arc::new(LogicalPlan::Skip(Skip {
            input: Arc::new(LogicalPlan::GraphJoins(GraphJoins {
                input: projection(
                    filter(scan("u", None), op(Operator::Equal, vec![pa("u", "id"), num(1)])),
                    vec![item(pa("u", "name"))],
                ),
                joins: vec![
                    Join {
                        table_name: "X".to_string(),
                        table_alias: "x".to_string(),
                        joining_on: vec![eq("x", "a", "u", "a"), eq("x", "b", "u", "b")],
                    },
                    Join {
                        table_name: "Y".to_string(),
                        table_alias: "y".to_string(),
                        joining_on: vec![eq("y", "a", "u", "a")],
                    },
                ],
            })),
            count: 5,
        })),
        count: 10,
    }));
    let render = plan.to_render_plan().unwrap();
    assert!(render.ctes.0.is_empty());
    assert_eq!(render.select.0.len(), 1);
    assert_eq!(render.select.0[0].expression, pa("u", "name"));
    let from = render.from.0.unwrap();
    assert_eq!(from.table_name, "u");
    assert_eq!(from.table_alias, Some("u".to_string()));
    assert_eq!(render.filters.0, Some(op(Operator::Equal, vec![pa("u", "id"), num(1)])));
    assert_eq!(render.joins.0[0].table_alias, "y");
    assert_eq!(render.joins.0[1].table_alias, "x");
    assert_eq!(render.limit.0, Some(10));
    assert_eq!(render.skip.0, Some(5));
    assert_eq!(plan.extract_final_filters(), Some(op(Operator::Equal, vec![pa("u", "id"), num(1)])));
    assert!(plan.extract_group_by().is_empty());
    assert!(plan.extract_order_by().is_empty());
    assert_eq!(plan.extract_joins().len(), 2);
    assert!(plan.extract_last_node_cte().is_none());
    assert!(plan.extract_ctes("u").unwrap().is_empty());
}

#[test]
fn rebuilding_keeps_an_unchanged_node() {
    let old = filter(scan("u", None), num(1));
    let same = match old.as_ref() {
        LogicalPlan::Filter(f) => f.rebuild_or_clone(Transformed::No(scan("u", None)), old.clone()),
        _ => panic!("expected a filter"),
    };
    assert!(!same.is_yes());
    assert!(Arc::ptr_eq(&same.get_plan(), &old));
    let new = match old.as_ref() {
        LogicalPlan::Filter(f) => f.rebuild_or_clone(Transformed::Yes(scan("v", None)), old.clone()),
        _ => panic!("expected a filter"),
    };
    assert!(new.is_yes());
    assert_eq!(new.get_plan(), filter(scan("v", None), num(1)));
    let cte = Arc::new(LogicalPlan::Cte(Cte { input: scan("u", None), name: "n".to_string() }));
    let gone = match cte.as_ref() {
        LogicalPlan::Cte(c) => {
            c.rebuild_or_clone(Transformed::Yes(Arc::new(LogicalPlan::Empty)), cte.clone())
        }
        _ => panic!("expected a cte"),
    };
    assert_eq!(gone.get_plan().as_ref(), &LogicalPlan::Empty);
}

// ---- the two methods of a pass ----

#[test]
fn a_pass_without_a_catalog_leaves_the_plan_when_given_one() {
    let schema = space_schema();
    let mut ctx = ctx_with(vec![("u", ctx_of(Some("User"), false))]);
    let before = ctx.clone();
    let plan = filter(graph_node("u"), op(Operator::Equal, vec![pa("u", "id"), num(1)]));
    let out = FilterTagging::new()
        .analyze_with_graph_schema(plan.clone(), &mut ctx, &schema)
        .unwrap();
    assert!(!out.is_yes());
    assert!(Arc::ptr_eq(&out.get_plan(), &plan));
    assert_eq!(ctx, before);
    let out = ProjectionTagging::new()
        .analyze_with_graph_schema(plan.clone(), &mut ctx, &schema)
        .unwrap();
    assert!(Arc::ptr_eq(&out.get_plan(), &plan));
    let out = GroupByBuilding::new()
        .analyze_with_graph_schema(plan.clone(), &mut ctx, &schema)
        .unwrap();
    assert!(Arc::ptr_eq(&out.get_plan(), &plan));
    let out = DuplicateScansRemoving::new()
        .analyze_with_graph_schema(plan.clone(), &mut ctx, &schema)
        .unwrap();
    assert!(Arc::ptr_eq(&out.get_plan(), &plan));
    let out = LastNodeTagging::new()
        .analyze_with_graph_schema(plan.clone(), &mut ctx, &schema)
        .unwrap();
    assert!(Arc::ptr_eq(&out.get_plan(), &plan));
    assert_eq!(ctx, before);
}

#[test]
fn a_pass_with_a_catalog_leaves_the_plan_when_given_none() {
    let mut ctx = ctx_with(vec![("u", ctx_of(None, false))]);
    let before = ctx.clone();
    let plan = graph_node("u");
    let out = SchemaInference::new().analyze(plan.clone(), &mut ctx).unwrap();
    assert!(!out.is_yes());
    assert!(Arc::ptr_eq(&out.get_plan(), &plan));
    let out = GraphTRaversalPlanning::new().analyze(plan.clone(), &mut ctx).unwrap();
    assert!(Arc::ptr_eq(&out.get_plan(), &plan));
    let out = GraphJoinInference::new().analyze(plan.clone(), &mut ctx).unwrap();
    assert!(Arc::ptr_eq(&out.get_plan(), &plan));
    assert_eq!(ctx, before);
}

#[test]
fn tagged_select_items_name_aliases_of_the_context() {
    let mut ctx = ctx_with(vec![("u", ctx_of(None, false)), ("v", ctx_of(None, false))]);
    let plan = projection(
        graph_node("u"),
        vec![
            item(PlanExpr::TableAlias(TableAlias("v".to_string()))),
            item(op(Operator::Addition, vec![pa("u", "age"), pa("v", "age")])),
        ],
    );
    let out = ProjectionTagging::new().analyze(plan, &mut ctx).unwrap().get_plan();
    let items = out.extract_select_items();
    assert_eq!(items.len(), 2);
    assert_eq!(items[0].expression, pa("v", "*"));
    assert_eq!(ctx.len(), 2);
    assert!(ctx.get_table_ctx_opt("u").is_some());
    assert!(ctx.get_table_ctx_opt("v").is_some());
}

#[test]
fn bare_columns_become_projection_items() {
    let items = GraphTRaversalPlanning::new().build_projections(vec![
        ("from_id".to_string(), None),
        (
            "to_User".to_string(),
            Some(brahmand::expr::ColumnAlias("to_id".to_string())),
        ),
    ]);
    assert_eq!(
        items,
        vec![
            item(col("from_id")),
            ProjectionItem {
                expression: col("to_User"),
                col_alias: Some(brahmand::expr::ColumnAlias("to_id".to_string())),
            },
        ]
    );
}

#[test]
fn only_a_projection_has_a_select_list() {
    let plan = projection(graph_node("u"), vec![item(pa("u", "name"))]);
    let list = brahmand::render_plan::SelectItems::build(&plan).unwrap();
    assert_eq!(list.0.len(), 1);
    assert_eq!(list.0[0].expression, pa("u", "name"));
    assert_eq!(list.0[0].col_alias, None);
    assert_eq!(
        brahmand::render_plan::SelectItems::build(&graph_node("u")).err(),
        Some(RenderBuildError::SelectItemsBuilder)
    );
}

#[test]
fn a_label_that_ends_in_a_direction_is_found_under_itself() {
    let schema = GraphSchema::build(
        1,
        vec![node_schema("User", &["id"]), node_schema("Post", &["id"])],
        vec![rel_schema("SENT_incoming", "User", "Post"), rel_schema("FOLLOWS", "User", "User")],
    );
    assert_eq!(
        brahmand::analyzer::graph_join_inference::catalog_label_of(&schema, &"SENT_incoming".to_string()),
        "SENT_incoming"
    );
    assert_eq!(
        brahmand::analyzer::graph_join_inference::catalog_label_of(&schema, &"FOLLOWS_outgoing".to_string()),
        "FOLLOWS"
    );
    assert_eq!(
        brahmand::analyzer::graph_join_inference::catalog_label_of(&schema, &"LIKES_either".to_string()),
        "LIKES"
    );
    let plan = projection(
        graph_rel(graph_node("p"), graph_node("u"), "s", "p", "u", Direction::Outgoing),
        vec![item(pa("p", "id"))],
    );
    let mut rel = ctx_of(Some("SENT_incoming"), true);
    rel.set_use_edge_list(true);
    let mut ctx = ctx_with(vec![
        ("p", ctx_of(Some("Post"), false)),
        ("s", rel),
        ("u", ctx_of(Some("User"), false)),
    ]);
    let out = GraphJoinInference::new()
        .analyze_with_graph_schema(plan, &mut ctx, &schema)
        .unwrap()
        .get_plan();
    let joins = out.extract_joins();
    assert_eq!(joins.len(), 2);
    assert_eq!(joins[0].table_name, "SENT_incoming_s");
}

#[test]
fn schema_inference_names_the_pattern_that_it_cannot_label() {
    let schema = space_schema();
    let plan = graph_rel(graph_node("x"), graph_node("y"), "r", "x", "y", Direction::Outgoing);
    let mut ctx = ctx_with(vec![
        ("x", ctx_of(None, false)),
        ("r", ctx_of(None, true)),
        ("y", ctx_of(None, false)),
    ]);
    assert_eq!(
        SchemaInference::new().analyze_with_graph_schema(plan.clone(), &mut ctx, &schema).err(),
        Some(AnalyzerError::NotEnoughLabels {
            pass: Pass::SchemaInference,
            left_alias: "x".to_string(),
            rel_alias: "r".to_string(),
            right_alias: "y".to_string(),
        })
    );
    let mut ctx = ctx_with(vec![
        ("x", ctx_of(Some("CAR"), false)),
        ("r", ctx_of(None, true)),
        ("y", ctx_of(Some("TOWN"), false)),
    ]);
    assert_eq!(
        SchemaInference::new().analyze_with_graph_schema(plan.clone(), &mut ctx, &schema).err(),
        Some(AnalyzerError::MissingRelationLabel {
            pass: Pass::SchemaInference,
            alias: "r".to_string()
        })
    );
    let mut ctx = ctx_with(vec![
        ("x", ctx_of(Some("CAR"), false)),
        ("r", ctx_of(Some("FLIES"), true)),
        ("y", ctx_of(None, false)),
    ]);
    assert_eq!(
        SchemaInference::new().analyze_with_graph_schema(plan, &mut ctx, &schema).err(),
        Some(AnalyzerError::NoRelationSchemaFound {
            pass: Pass::SchemaInference,
            rel_label: "FLIES".to_string()
        })
    );
}
