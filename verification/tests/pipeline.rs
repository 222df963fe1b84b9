use std::sync::Arc;

use brahmand::analyzer::{final_analyzing, initial_analyzing, intermediate_analyzing};
use brahmand::ast::{
    ConnectedPattern, DeleteClause, Expression, FunctionCall, LimitClause, MatchClause,
    NodePattern, OpenCypherQueryAst, OperatorApplication, OrderByClause, OrderByItem,
    OrerByOrder, PathPattern, PropertyAccess, RelationshipPattern, RemoveClause, ReturnClause,
    ReturnItem, SkipClause, WhereClause,
};
use brahmand::errors::{
    AnalyzerError, LogicalPlanError, Pass, QueryPlannerError, RenderBuildError,
};
use brahmand::expr::{
    AggregateFnCall, Column, ColumnAlias, Direction, Literal, Operator, PlanExpr, Property,
    PropertyKVPair, ScalarFnCall, TableAlias,
};
use brahmand::graph_schema::{GraphSchema, NodeIdSchema, NodeSchema, RelationshipSchema};
use brahmand::logical_plan::{LogicalPlan, OrderByOrder};
use brahmand::plan_builder::{
    build_logical_plan, convert_expr, convert_properties, evaluate_match_clause_with_ids,
    evaluate_query, is_aggregate_fn,
};
use brahmand::optimizer::{final_optimization, initial_optimization};
use brahmand::plan_ctx::PlanCtx;
use brahmand::planner::{evaluate_read_query, generate_query_sql, get_query_type, QueryType};
use brahmand::render_plan::RenderPlan;

fn empty_query() -> OpenCypherQueryAst {
    OpenCypherQueryAst {
        match_clause: None,
        with_clause: None,
        where_clause: None,
        create_clause: None,
        create_node_table_clause: None,
        create_rel_table_clause: None,
        set_clause: None,
        remove_clause: None,
        delete_clause: None,
        return_clause: None,
        order_by_clause: None,
        skip_clause: None,
        limit_clause: None,
    }
}

fn node(name: Option<&str>, label: Option<&str>, props: Option<Vec<Property>>) -> NodePattern {
    NodePattern {
        name: name.map(|s| s.to_string()),
        label: label.map(|s| s.to_string()),
        properties: props,
    }
}

fn rel(
    name: Option<&str>,
    label: Option<&str>,
    direction: Direction,
    props: Option<Vec<Property>>,
) -> RelationshipPattern {
    RelationshipPattern {
        name: name.map(|s| s.to_string()),
        direction,
        label: label.map(|s| s.to_string()),
        properties: props,
    }
}

fn hop(start: NodePattern, relationship: RelationshipPattern, end: NodePattern) -> ConnectedPattern {
    ConnectedPattern { start_node: start, relationship, end_node: end }
}

fn kv(key: &str, value: i64) -> Property {
    Property::PropertyKV(PropertyKVPair { key: key.to_string(), value: Literal::Integer(value) })
}

fn prop(base: &str, key: &str) -> Expression {
    Expression::PropertyAccessExp(PropertyAccess { base: base.to_string(), key: key.to_string() })
}

fn var(name: &str) -> Expression {
    Expression::Variable(name.to_string())
}

fn lit(i: i64) -> Expression {
    Expression::Literal(Literal::Integer(i))
}

fn ret(items: Vec<Expression>) -> ReturnClause {
    ReturnClause {
        return_items: items
            .into_iter()
            .map(|expression| ReturnItem { expression, alias: None })
            .collect(),
    }
}

fn matching(path_patterns: Vec<PathPattern>) -> Option<MatchClause> {
    Some(MatchClause { path_patterns })
}

fn pa(alias: &str, column: &str) -> PlanExpr {
    PlanExpr::PropertyAccessExp(brahmand::expr::PropertyAccess {
        table_alias: TableAlias(alias.to_string()),
        column: Column(column.to_string()),
    })
}

fn col(name: &str) -> PlanExpr {
    PlanExpr::Column(Column(name.to_string()))
}

fn num(i: i64) -> PlanExpr {
    PlanExpr::Literal(Literal::Integer(i))
}

fn op(operator: Operator, operands: Vec<PlanExpr>) -> PlanExpr {
    PlanExpr::OperatorApplicationExp(brahmand::expr::OperatorApplication { operator, operands })
}

fn node_schema(table: &str, columns: &[&str]) -> (String, NodeSchema) {
    (
        table.to_string(),
        NodeSchema {
            table_name: table.to_string(),
            column_names: columns.iter().map(|c| c.to_string()).collect(),
            primary_keys: "id".to_string(),
            node_id: NodeIdSchema { column: "id".to_string(), dtype: "UInt64".to_string() },
        },
    )
}

fn rel_schema(table: &str, from: &str, to: &str) -> (String, RelationshipSchema) {
    (
        table.to_string(),
        RelationshipSchema {
            table_name: table.to_string(),
            column_names: vec![],
            from_node: from.to_string(),
            to_node: to.to_string(),
            from_node_id_dtype: "UInt64".to_string(),
            to_node_id_dtype: "UInt64".to_string(),
        },
    )
}

fn social_schema() -> GraphSchema {
    GraphSchema::build(
        1,
        vec![
            node_schema("User", &["id", "name"]),
            node_schema("Post", &["id", "author", "title"]),
            node_schema("Person", &["id", "age"]),
        ],
        vec![
            rel_schema("FOLLOWS", "User", "User"),
            rel_schema("KNOWS", "Person", "Person"),
            rel_schema("CREATED", "User", "Post"),
        ],
    )
}

fn render(query: OpenCypherQueryAst) -> RenderPlan {
    evaluate_read_query(query, &social_schema()).unwrap().to_render_plan().unwrap()
}

fn is_generated(alias: &str) -> bool {
    alias.len() == 11
        && alias.starts_with('a')
        && alias[1..].chars().all(|c| c.is_ascii_digit() || ('a'..='f').contains(&c))
}

// ---- the builder ----

#[test]
fn expressions_of_the_syntax_tree_become_plan_expressions() {
    assert_eq!(convert_expr(&var("*")), PlanExpr::Star);
    assert_eq!(convert_expr(&var("n")), PlanExpr::TableAlias(TableAlias("n".to_string())));
    assert_eq!(convert_expr(&lit(3)), num(3));
    assert_eq!(
        convert_expr(&Expression::Parameter("p".to_string())),
        PlanExpr::Parameter("p".to_string())
    );
    assert_eq!(convert_expr(&prop("u", "name")), pa("u", "name"));
    assert_eq!(
        convert_expr(&Expression::List(vec![lit(1), var("*")])),
        PlanExpr::List(vec![num(1), PlanExpr::Star])
    );
    assert_eq!(
        convert_expr(&Expression::OperatorApplicationExp(OperatorApplication {
            operator: Operator::LessThan,
            operands: vec![prop("u", "age"), lit(30)],
        })),
        op(Operator::LessThan, vec![pa("u", "age"), num(30)])
    );
    assert_eq!(
        convert_expr(&Expression::FunctionCallExp(FunctionCall {
            name: "CoUnT".to_string(),
            args: vec![var("u")],
        })),
        PlanExpr::AggregateFnCall(AggregateFnCall {
            name: "CoUnT".to_string(),
            args: vec![PlanExpr::TableAlias(TableAlias("u".to_string()))],
        })
    );
    assert_eq!(
        convert_expr(&Expression::FunctionCallExp(FunctionCall {
            name: "length".to_string(),
            args: vec![prop("u", "name")],
        })),
        PlanExpr::ScalarFnCall(ScalarFnCall {
            name: "length".to_string(),
            args: vec![pa("u", "name")]
        })
    );
}

#[test]
fn aggregate_functions_are_told_by_their_name() {
    for name in ["count", "MIN", "Max", "avg", "SUM"] {
        assert!(is_aggregate_fn(name));
    }
    for name in ["counts", "mi", "", "length", "summ", "c0unt"] {
        assert!(!is_aggregate_fn(name));
    }
}

#[test]
fn inline_properties_become_equalities() {
    assert_eq!(
        convert_properties(vec![kv("id", 5), Property::Param("p".to_string()), kv("age", 7)]),
        vec![
            op(Operator::Equal, vec![col("id"), num(5)]),
            op(Operator::Equal, vec![col("age"), num(7)]),
        ]
    );
}

#[test]
fn a_connected_pattern_puts_the_new_endpoint_left() {
    let mut query = empty_query();
    query.match_clause = matching(vec![PathPattern::ConnectedPattern(vec![
        hop(
            node(Some("a"), Some("User"), None),
            rel(Some("r1"), Some("FOLLOWS"), Direction::Outgoing, None),
            node(Some("b"), None, None),
        ),
        hop(
            node(Some("b"), Some("User"), Some(vec![kv("id", 1)])),
            rel(Some("r2"), None, Direction::Incoming, None),
            node(Some("c"), None, None),
        ),
    ])]);
    let (plan, ctx) = build_logical_plan(&query).unwrap();
    match plan.as_ref() {
        LogicalPlan::GraphRel(top) => {
            assert_eq!(top.alias, "r2");
            assert_eq!(top.direction, Direction::Incoming);
            assert_eq!(top.left_connection, "c");
            assert_eq!(top.right_connection, "b");
            assert!(!top.is_rel_anchor);
            match top.left.as_ref() {
                LogicalPlan::GraphNode(n) => {
                    assert_eq!(n.alias, "c");
                    assert_eq!(n.down_connection, Some("r2".to_string()));
                }
                _ => panic!("expected a node"),
            }
            match top.right.as_ref() {
                LogicalPlan::GraphRel(below) => {
                    assert_eq!(below.alias, "r1");
                    assert_eq!(below.left_connection, "b");
                    assert_eq!(below.right_connection, "a");
                    match below.right.as_ref() {
                        LogicalPlan::GraphNode(n) => {
                            assert_eq!(n.alias, "a");
                            assert_eq!(n.down_connection, None);
                        }
                        _ => panic!("expected the start node"),
                    }
                }
                _ => panic!("expected the first relationship below"),
            }
        }
        _ => panic!("expected a relationship"),
    }
    assert_eq!(ctx.len(), 5);
    let order: Vec<&str> = ctx.get_alias_table_ctx_map().iter().map(|e| e.0.as_str()).collect();
    assert_eq!(order, vec!["a", "b", "r1", "c", "r2"]);
    let b = ctx.get_table_ctx("b").unwrap();
    assert_eq!(b.label, Some("User".to_string()));
    assert!(b.properties.is_empty());
    assert_eq!(b.get_filters(), &vec![op(Operator::Equal, vec![col("id"), num(1)])]);
    assert!(b.use_edge_list);
    assert!(ctx.get_table_ctx("r1").unwrap().is_rel);
    assert!(!ctx.get_table_ctx("a").unwrap().use_edge_list);
}

#[test]
fn anonymous_elements_get_generated_aliases() {
    let mut query = empty_query();
    query.match_clause = matching(vec![PathPattern::ConnectedPattern(vec![hop(
        node(None, Some("User"), None),
        rel(None, Some("FOLLOWS"), Direction::Either, None),
        node(Some("v"), None, None),
    )])]);
    let (plan, ctx) = evaluate_query(query).unwrap();
    match plan.as_ref() {
        LogicalPlan::GraphRel(top) => {
            assert_eq!(top.direction, Direction::Either);
            assert_eq!(top.left_connection, "v");
            assert!(is_generated(&top.alias));
            assert!(is_generated(&top.right_connection));
            assert_ne!(top.alias, top.right_connection);
            assert!(!ctx.get_table_ctx(&top.alias).unwrap().explicit_alias);
            assert!(!ctx.get_table_ctx(&top.right_connection).unwrap().explicit_alias);
            assert!(ctx.get_table_ctx("v").unwrap().explicit_alias);
        }
        _ => panic!("expected a relationship"),
    }
}

#[test]
fn the_given_aliases_are_taken_three_per_pattern() {
    let clause = MatchClause {
        path_patterns: vec![PathPattern::ConnectedPattern(vec![
            hop(node(Some("a"), None, None), rel(None, None, Direction::Outgoing, None), node(None, None, None)),
        ])],
    };
    let ids: Vec<String> = ["s0", "r0", "e0"].iter().map(|s| s.to_string()).collect();
    let mut ctx = PlanCtx::default();
    let plan =
        evaluate_match_clause_with_ids(&clause, Arc::new(LogicalPlan::Empty), &mut ctx, &ids)
            .unwrap();
    match plan.as_ref() {
        LogicalPlan::GraphRel(top) => {
            assert_eq!(top.alias, "r0");
            assert_eq!(top.left_connection, "e0");
            assert_eq!(top.right_connection, "a");
        }
        _ => panic!("expected a relationship"),
    }
}

#[test]
fn a_pattern_that_shares_no_alias_is_disconnected() {
    let mut query = empty_query();
    query.match_clause = matching(vec![
        PathPattern::ConnectedPattern(vec![hop(
            node(Some("a"), None, None),
            rel(None, None, Direction::Outgoing, None),
            node(Some("b"), None, None),
        )]),
        PathPattern::ConnectedPattern(vec![hop(
            node(Some("c"), None, None),
            rel(None, None, Direction::Outgoing, None),
            node(Some("d"), None, None),
        )]),
    ]);
    assert_eq!(build_logical_plan(&query).err(), Some(LogicalPlanError::DisconnectedPatternFound));
    assert_eq!(
        evaluate_read_query(query, &social_schema()).err(),
        Some(QueryPlannerError::LogicalPlan(LogicalPlanError::DisconnectedPatternFound))
    );
}

#[test]
fn a_standalone_node_needs_a_name() {
    let mut query = empty_query();
    query.match_clause = matching(vec![PathPattern::Node(node(None, Some("User"), None))]);
    assert_eq!(build_logical_plan(&query).err(), Some(LogicalPlanError::EmptyNode));

    let mut again = empty_query();
    again.match_clause = matching(vec![
        PathPattern::Node(node(Some("u"), None, None)),
        PathPattern::Node(node(Some("u"), Some("User"), Some(vec![kv("id", 5)]))),
    ]);
    let (plan, ctx) = build_logical_plan(&again).unwrap();
    assert!(matches!(plan.as_ref(), LogicalPlan::GraphNode(n) if n.alias == "u"));
    assert_eq!(ctx.len(), 1);
    assert_eq!(ctx.get_table_ctx("u").unwrap().label, Some("User".to_string()));
    assert_eq!(ctx.get_table_ctx("u").unwrap().get_filters().len(), 1);
}

#[test]
fn the_clauses_wrap_the_plan_in_their_order() {
    let mut query = empty_query();
    query.match_clause = matching(vec![PathPattern::Node(node(Some("u"), Some("User"), None))]);
    query.where_clause = Some(WhereClause {
        conditions: Expression::OperatorApplicationExp(OperatorApplication {
            operator: Operator::Equal,
            operands: vec![prop("u", "id"), lit(1)],
        }),
    });
    query.return_clause = Some(ReturnClause {
        return_items: vec![ReturnItem { expression: prop("u", "name"), alias: Some("n".to_string()) }],
    });
    query.order_by_clause = Some(OrderByClause {
        order_by_items: vec![
            OrderByItem { expression: var("n"), order: OrerByOrder::Desc },
            OrderByItem { expression: prop("u", "id"), order: OrerByOrder::Asc },
        ],
    });
    query.skip_clause = Some(SkipClause { skip_item: 2 });
    query.limit_clause = Some(LimitClause { limit_item: 3 });
    let (plan, _) = build_logical_plan(&query).unwrap();
    let LogicalPlan::Limit(limit) = plan.as_ref() else { panic!("expected a limit") };
    assert_eq!(limit.count, 3);
    let LogicalPlan::Skip(skip) = limit.input.as_ref() else { panic!("expected a skip") };
    assert_eq!(skip.count, 2);
    let LogicalPlan::OrderBy(order) = skip.input.as_ref() else { panic!("expected an order") };
    assert_eq!(order.items[0].expression, PlanExpr::ColumnAlias(ColumnAlias("n".to_string())));
    assert_eq!(order.items[0].order, OrderByOrder::Desc);
    assert_eq!(order.items[1].expression, pa("u", "id"));
    assert_eq!(order.items[1].order, OrderByOrder::Asc);
    let LogicalPlan::Projection(projection) = order.input.as_ref() else {
        panic!("expected a projection")
    };
    assert_eq!(projection.items[0].col_alias, Some(ColumnAlias("n".to_string())));
    let LogicalPlan::Filter(filter) = projection.input.as_ref() else { panic!("expected a filter") };
    assert_eq!(filter.predicate, op(Operator::Equal, vec![pa("u", "id"), num(1)]));
    assert!(matches!(filter.input.as_ref(), LogicalPlan::GraphNode(_)));
    assert_eq!(OrerByOrder::Asc.as_str(), "ASC");
    assert_eq!(OrerByOrder::Desc.as_str(), "DESC");
}

#[test]
fn queries_are_sorted_by_their_kind() {
    assert_eq!(get_query_type(&empty_query()), QueryType::Read);
    let mut delete = empty_query();
    delete.delete_clause = Some(DeleteClause { is_detach: false, delete_items: vec![] });
    assert_eq!(get_query_type(&delete), QueryType::Delete);
    let mut update = empty_query();
    update.remove_clause = Some(RemoveClause { remove_items: vec![] });
    assert_eq!(get_query_type(&update), QueryType::Update);
    assert_eq!(
        evaluate_read_query(update, &social_schema()).err(),
        Some(QueryPlannerError::UnsupportedQueryType)
    );
    let mut ddl = empty_query();
    ddl.create_node_table_clause = Some(brahmand::ast::CreateNodeTableClause {
        table_name: "T".to_string(),
        table_schema: vec![],
        table_properties: vec![],
    });
    ddl.delete_clause = Some(DeleteClause { is_detach: true, delete_items: vec![] });
    assert_eq!(get_query_type(&ddl), QueryType::Ddl);
}

// ---- end to end ----

#[test]
fn a_single_node_is_read_directly() {
    let mut q = empty_query();
    q.match_clause =
        matching(vec![PathPattern::Node(node(Some("u"), Some("User"), Some(vec![kv("id", 5)])))]);
    q.return_clause = Some(ret(vec![prop("u", "name")]));
    let sql = generate_query_sql(q, &social_schema()).unwrap();
    assert_eq!(sql, "SELECT \n      u.name\nFROM User AS u\nWHERE id = 5\n");
}

#[test]
fn a_relationship_without_properties_reads_its_bitmap_index() {
    let mut q = empty_query();
    q.match_clause = matching(vec![PathPattern::ConnectedPattern(vec![hop(
        node(Some("u"), Some("User"), None),
        rel(None, Some("FOLLOWS"), Direction::Outgoing, None),
        node(Some("v"), Some("User"), None),
    )])]);
    q.where_clause = Some(WhereClause {
        conditions: Expression::OperatorApplicationExp(OperatorApplication {
            operator: Operator::Equal,
            operands: vec![prop("u", "id"), lit(1)],
        }),
    });
    q.return_clause = Some(ret(vec![prop("v", "name")]));
    let plan = render(q);

    assert_eq!(plan.ctes.0.len(), 2);
    assert_eq!(plan.ctes.0[0].cte_name, "User_u");
    assert_eq!(
        plan.ctes.0[0].cte_plan.filters.0,
        Some(op(Operator::Equal, vec![col("id"), num(1)]))
    );
    let rel_cte = &plan.ctes.0[1];
    let alias = rel_cte.cte_name.strip_prefix("FOLLOWS_outgoing_").unwrap().to_string();
    assert!(is_generated(&alias));
    let selected: Vec<String> =
        rel_cte.cte_plan.select.0.iter().map(|i| i.expression.to_sql()).collect();
    assert_eq!(selected, vec!["from_id", "arrayJoin(bitmapToArray(to_id))"]);
    assert_eq!(rel_cte.cte_plan.select.0[1].col_alias, Some(ColumnAlias("to_id".to_string())));
    assert_eq!(rel_cte.cte_plan.from.0.as_ref().unwrap().table_name, "FOLLOWS_outgoing");
    assert_eq!(
        rel_cte.cte_plan.filters.0.as_ref().unwrap().to_sql(),
        "from_id IN (SELECT id FROM User_u)"
    );

    assert_eq!(plan.select.0.len(), 1);
    assert_eq!(plan.select.0[0].expression, pa("v", "name"));
    let from = plan.from.0.as_ref().unwrap();
    assert_eq!((from.table_name.as_str(), from.table_alias.as_deref()), ("User", Some("v")));
    assert_eq!(plan.filters.0, None);
    assert_eq!(plan.joins.0.len(), 2);
    assert_eq!(plan.joins.0[0].table_alias, alias);
    assert_eq!(plan.joins.0[0].joining_on, vec![brahmand::expr::OperatorApplication {
        operator: Operator::Equal,
        operands: vec![pa(&alias, "to_id"), pa("v", "id")],
    }]);
    assert_eq!(plan.joins.0[1].table_name, "User_u");
}

#[test]
fn a_relationship_with_properties_reads_its_edge_list() {
    let mut q = empty_query();
    q.match_clause = matching(vec![PathPattern::ConnectedPattern(vec![hop(
        node(Some("u"), Some("User"), None),
        rel(Some("f"), Some("FOLLOWS"), Direction::Outgoing, Some(vec![kv("since", 2020)])),
        node(Some("v"), Some("User"), None),
    )])]);
    q.return_clause = Some(ret(vec![prop("f", "since"), prop("v", "id")]));
    let plan = render(q);

    let names: Vec<&str> = plan.ctes.0.iter().map(|c| c.cte_name.as_str()).collect();
    assert_eq!(names, vec!["FOLLOWS_f", "User_v"]);
    let edge = &plan.ctes.0[0].cte_plan;
    let selected: Vec<(String, Option<String>)> = edge
        .select
        .0
        .iter()
        .map(|i| (i.expression.to_sql(), i.col_alias.as_ref().map(|a| a.0.clone())))
        .collect();
    assert_eq!(
        selected,
        vec![
            ("since".to_string(), None),
            ("from_User".to_string(), Some("from_id".to_string())),
            ("to_User".to_string(), Some("to_id".to_string())),
        ]
    );
    assert_eq!(edge.from.0.as_ref().unwrap().table_name, "FOLLOWS");
    assert_eq!(edge.filters.0, Some(op(Operator::Equal, vec![col("since"), num(2020)])));

    let order: Vec<&str> = plan.joins.0.iter().map(|j| j.table_alias.as_str()).collect();
    assert_eq!(order, vec!["f", "v"]);
    assert_eq!(plan.joins.0[0].table_name, "FOLLOWS_f");
    assert_eq!(plan.from.0.as_ref().unwrap().table_alias, Some("u".to_string()));
    assert_eq!(plan.select.0[0].expression, pa("f", "since"));
    assert_eq!(plan.select.0[1].expression, pa("v", "id"));
}

#[test]
fn a_relationship_between_joined_nodes_stands_alone() {
    let mut q = empty_query();
    q.match_clause = matching(vec![
        PathPattern::ConnectedPattern(vec![
            hop(
                node(Some("a"), Some("User"), None),
                rel(None, Some("FOLLOWS"), Direction::Outgoing, None),
                node(Some("b"), Some("User"), None),
            ),
            hop(
                node(Some("b"), Some("User"), None),
                rel(None, Some("FOLLOWS"), Direction::Outgoing, None),
                node(Some("c"), Some("User"), None),
            ),
        ]),
        PathPattern::ConnectedPattern(vec![hop(
            node(Some("a"), None, None),
            rel(None, Some("FOLLOWS"), Direction::Outgoing, None),
            node(Some("c"), None, None),
        )]),
    ]);
    q.return_clause = Some(ret(vec![prop("a", "id"), prop("c", "id")]));
    let logical = evaluate_read_query(q, &social_schema()).unwrap();
    let plan = logical.to_render_plan().unwrap();

    let rel_ctes: Vec<&str> = plan
        .ctes
        .0
        .iter()
        .map(|c| c.cte_name.as_str())
        .filter(|n| n.starts_with("FOLLOWS_outgoing_"))
        .collect();
    assert_eq!(rel_ctes.len(), 3);
    let mut names: Vec<&str> = plan.ctes.0.iter().map(|c| c.cte_name.as_str()).collect();
    let total = names.len();
    names.sort();
    names.dedup();
    assert_eq!(names.len(), total);

    assert_eq!(plan.joins.0.len(), 5);
    let sizes: Vec<usize> = plan.joins.0.iter().map(|j| j.joining_on.len()).collect();
    assert_eq!(sizes, vec![1, 1, 1, 1, 2]);
    let last = &plan.joins.0[4];
    let both: Vec<String> = last
        .joining_on
        .iter()
        .map(|o| brahmand::render_plan::ToSql::to_sql(o))
        .collect();
    assert_eq!(
        both,
        vec![format!("{}.to_id = c.id", last.table_alias), format!("{}.from_id = a.id", last.table_alias)]
    );

    fn standalone_left_is_empty(plan: &LogicalPlan) -> bool {
        match plan {
            LogicalPlan::GraphJoins(j) => standalone_left_is_empty(&j.input),
            LogicalPlan::Projection(p) => standalone_left_is_empty(&p.input),
            LogicalPlan::GraphRel(r) => matches!(r.left.as_ref(), LogicalPlan::Empty),
            _ => false,
        }
    }
    assert!(standalone_left_is_empty(&logical));
}

#[test]
fn aggregates_group_by_the_other_items() {
    let mut q = empty_query();
    q.match_clause = matching(vec![PathPattern::Node(node(Some("p"), Some("Post"), None))]);
    q.return_clause = Some(ret(vec![
        Expression::FunctionCallExp(FunctionCall { name: "count".to_string(), args: vec![var("p")] }),
        prop("p", "author"),
    ]));
    let plan = render(q);
    assert_eq!(plan.group_by.0, vec![pa("p", "author")]);
    assert!(plan.order_by.0.is_empty());
    assert_eq!(plan.limit.0, None);
    assert_eq!(plan.skip.0, None);
    assert!(plan.ctes.0.is_empty());
    assert_eq!(
        brahmand::render_plan::to_sql::generate_sql(plan),
        "SELECT \n      count(p), \n      p.author\nFROM Post AS p\nGROUP BY p.author\n"
    );
}

#[test]
fn either_direction_between_like_nodes_is_a_union() {
    let mut q = empty_query();
    q.match_clause = matching(vec![PathPattern::ConnectedPattern(vec![hop(
        node(Some("a"), Some("Person"), None),
        rel(None, Some("KNOWS"), Direction::Either, None),
        node(Some("b"), Some("Person"), None),
    )])]);
    q.return_clause = Some(ret(vec![var("a"), var("b")]));
    let plan = render(q);
    assert_eq!(plan.ctes.0.len(), 2);
    assert_eq!(plan.ctes.0[0].cte_name, "Person_a");
    let both = &plan.ctes.0[1];
    assert!(both.cte_name.starts_with("KNOWS_either_"));
    assert!(both.cte_plan.select.0.is_empty());
    let tables: Vec<&str> = both
        .cte_plan
        .union
        .0
        .iter()
        .map(|p| p.from.0.as_ref().unwrap().table_name.as_str())
        .collect();
    assert_eq!(tables, vec!["KNOWS_outgoing", "KNOWS_incoming"]);
    assert_eq!(plan.joins.0.len(), 2);
    assert_eq!(plan.select.0[0].expression, pa("a", "*"));
    assert_eq!(plan.select.0[1].expression, pa("b", "*"));
}

#[test]
fn a_query_without_return_has_no_render_plan() {
    let mut q = empty_query();
    q.match_clause = matching(vec![PathPattern::Node(node(Some("u"), Some("User"), None))]);
    let logical = evaluate_read_query(q, &social_schema()).unwrap();
    assert_eq!(logical.to_render_plan().err(), Some(RenderBuildError::MissingSelectItems));
    let mut again = empty_query();
    again.match_clause = matching(vec![PathPattern::Node(node(Some("u"), Some("User"), None))]);
    assert_eq!(
        generate_query_sql(again, &social_schema()),
        Err(QueryPlannerError::Render(RenderBuildError::MissingSelectItems))
    );
}

#[test]
fn labels_are_inferred_before_planning() {
    let mut q = empty_query();
    q.match_clause = matching(vec![PathPattern::ConnectedPattern(vec![hop(
        node(Some("u"), Some("User"), None),
        rel(Some("c"), Some("CREATED"), Direction::Outgoing, None),
        node(Some("p"), None, None),
    )])]);
    q.return_clause = Some(ret(vec![prop("p", "title")]));
    let plan = render(q);
    let names: Vec<&str> = plan.ctes.0.iter().map(|c| c.cte_name.as_str()).collect();
    assert_eq!(names, vec!["User_u", "CREATED_outgoing_c"]);
    assert_eq!(plan.from.0.as_ref().unwrap().table_name, "Post");
}

#[test]
fn an_error_of_a_pass_ends_planning() {
    let mut q = empty_query();
    q.match_clause = matching(vec![PathPattern::Node(node(Some("u"), Some("User"), None))]);
    q.where_clause = Some(WhereClause {
        conditions: Expression::OperatorApplicationExp(OperatorApplication {
            operator: Operator::Equal,
            operands: vec![prop("x", "id"), lit(1)],
        }),
    });
    q.return_clause = Some(ret(vec![prop("u", "name")]));
    assert_eq!(
        generate_query_sql(q, &social_schema()).err(),
        Some(QueryPlannerError::Analyzer(AnalyzerError::OrphanAlias {
            pass: Pass::FilterTagging,
            alias: "x".to_string(),
        }))
    );
}

#[test]
fn the_connections_of_the_final_plan_are_aliases_of_the_context() {
    let mut q = empty_query();
    q.match_clause = matching(vec![PathPattern::ConnectedPattern(vec![
        hop(
            node(Some("a"), Some("User"), None),
            rel(Some("f"), Some("FOLLOWS"), Direction::Outgoing, None),
            node(Some("b"), Some("User"), None),
        ),
        hop(
            node(Some("b"), Some("User"), None),
            rel(None, Some("CREATED"), Direction::Outgoing, None),
            node(Some("p"), Some("Post"), None),
        ),
    ])]);
    q.return_clause = Some(ret(vec![prop("a", "name"), prop("p", "title")]));
    let schema = social_schema();

    let (plan, mut ctx) = evaluate_query(q).unwrap();
    let plan = initial_analyzing(plan, &mut ctx, &schema).unwrap();
    let plan = initial_optimization(plan, &mut ctx).unwrap();
    let plan = intermediate_analyzing(plan, &mut ctx, &schema).unwrap();
    let plan = final_optimization(plan, &mut ctx).unwrap();
    let plan = final_analyzing(plan, &mut ctx, &schema).unwrap();

    let rels = plan.graph_rels();
    assert_eq!(rels.len(), 2);
    for (alias, left_connection, right_connection) in rels {
        assert!(ctx.get_table_ctx_opt(&alias).is_some());
        assert!(ctx.get_table_ctx_opt(&left_connection).is_some());
        assert!(ctx.get_table_ctx_opt(&right_connection).is_some());
    }
    for join in plan.extract_joins() {
        assert!(ctx.get_table_ctx_opt(&join.table_alias).is_some());
    }
}

#[test]
fn a_filter_in_the_middle_of_a_chain_starts_the_traversal() {
    let mut q = empty_query();
    q.match_clause = matching(vec![PathPattern::ConnectedPattern(vec![
        hop(
            node(Some("a"), Some("User"), None),
            rel(Some("r1"), Some("FOLLOWS"), Direction::Outgoing, None),
            node(Some("b"), Some("User"), None),
        ),
        hop(
            node(Some("b"), Some("User"), None),
            rel(Some("r2"), Some("FOLLOWS"), Direction::Outgoing, None),
            node(Some("c"), Some("User"), None),
        ),
        hop(
            node(Some("c"), Some("User"), None),
            rel(Some("r3"), Some("CREATED"), Direction::Outgoing, None),
            node(Some("p"), Some("Post"), None),
        ),
    ])]);
    q.where_clause = Some(WhereClause {
        conditions: Expression::OperatorApplicationExp(OperatorApplication {
            operator: Operator::Equal,
            operands: vec![prop("b", "id"), lit(1)],
        }),
    });
    q.return_clause = Some(ret(vec![prop("p", "title")]));
    let logical = evaluate_read_query(q, &social_schema()).unwrap();

    // r3 and r2 stay on top; r1 is flipped, so that b starts the chain.
    let rels = logical.graph_rels();
    assert_eq!(
        rels,
        vec![
            ("r3".to_string(), "p".to_string(), "c".to_string()),
            ("r2".to_string(), "c".to_string(), "b".to_string()),
            ("r1".to_string(), "a".to_string(), "b".to_string()),
        ]
    );

    let plan = logical.to_render_plan().unwrap();
    let names: Vec<&str> = plan.ctes.0.iter().map(|c| c.cte_name.as_str()).collect();
    assert_eq!(names[0], "User_b");
    assert_eq!(
        plan.ctes.0[0].cte_plan.filters.0,
        Some(op(Operator::Equal, vec![col("id"), num(1)]))
    );
    let mut unique = names.clone();
    unique.sort();
    unique.dedup();
    assert_eq!(unique.len(), names.len());
    assert_eq!(plan.from.0.as_ref().unwrap().table_alias, Some("p".to_string()));
}

#[test]
fn a_label_with_an_underscore_names_the_table_of_the_outer_query() {
    let schema = GraphSchema::build(
        1,
        vec![node_schema("User", &["id", "name"]), node_schema("Blog_Post", &["id", "title"])],
        vec![rel_schema("WROTE", "User", "Blog_Post")],
    );
    let mut q = empty_query();
    q.match_clause = matching(vec![PathPattern::ConnectedPattern(vec![hop(
        node(Some("u"), Some("User"), None),
        rel(Some("w"), Some("WROTE"), Direction::Outgoing, None),
        node(Some("p"), Some("Blog_Post"), None),
    )])]);
    q.where_clause = Some(WhereClause {
        conditions: Expression::OperatorApplicationExp(OperatorApplication {
            operator: Operator::Equal,
            operands: vec![prop("u", "id"), lit(1)],
        }),
    });
    q.return_clause = Some(ret(vec![prop("p", "title")]));
    let logical = evaluate_read_query(q, &schema).unwrap();
    assert_eq!(logical.extract_last_node_alias(), Some("p".to_string()));
    assert_eq!(logical.extract_last_node_cte().unwrap().cte_name, "Blog_Post_p");

    let plan = logical.to_render_plan().unwrap();
    let names: Vec<&str> = plan.ctes.0.iter().map(|c| c.cte_name.as_str()).collect();
    assert_eq!(names, vec!["User_u", "WROTE_outgoing_w"]);
    let from = plan.from.0.as_ref().unwrap();
    assert_eq!((from.table_name.as_str(), from.table_alias.as_deref()), ("Blog_Post", Some("p")));
}

#[test]
fn a_built_plan_has_its_connections_in_the_context() {
    let mut q = empty_query();
    q.match_clause = matching(vec![
        PathPattern::ConnectedPattern(vec![
            hop(
                node(Some("a"), Some("User"), None),
                rel(None, Some("FOLLOWS"), Direction::Outgoing, None),
                node(None, None, None),
            ),
            hop(
                node(Some("a"), None, None),
                rel(Some("c"), None, Direction::Incoming, None),
                node(Some("p"), None, None),
            ),
        ]),
        PathPattern::Node(node(Some("p"), Some("Post"), None)),
    ]);
    q.return_clause = Some(ret(vec![prop("p", "title")]));
    let (plan, ctx) = evaluate_query(q).unwrap();

    let rels = plan.graph_rels();
    assert_eq!(rels.len(), 2);
    for (alias, left_connection, right_connection) in &rels {
        assert!(ctx.get_table_ctx_opt(alias).unwrap().is_relation());
        assert!(!ctx.get_table_ctx_opt(left_connection).unwrap().is_relation());
        assert!(!ctx.get_table_ctx_opt(right_connection).unwrap().is_relation());
    }
    assert_eq!(rels[0].0, "c");
    assert_eq!((rels[0].1.as_str(), rels[0].2.as_str()), ("p", "a"));

    fn lefts_are_their_nodes(plan: &LogicalPlan) -> bool {
        match plan {
            LogicalPlan::Projection(p) => lefts_are_their_nodes(&p.input),
            LogicalPlan::GraphRel(r) => {
                let left_ok = match r.left.as_ref() {
                    LogicalPlan::GraphNode(n) => {
                        n.alias == r.left_connection
                            && matches!(n.input.as_ref(), LogicalPlan::Scan(s)
                                if s.table_alias == n.alias && s.table_name.is_none())
                    }
                    _ => false,
                };
                left_ok && lefts_are_their_nodes(&r.right)
            }
            LogicalPlan::GraphNode(n) => {
                matches!(n.input.as_ref(), LogicalPlan::Scan(s) if s.table_name.is_none())
            }
            _ => false,
        }
    }
    assert!(lefts_are_their_nodes(&plan));
}
