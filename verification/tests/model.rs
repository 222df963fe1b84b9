use std::sync::Arc;

use brahmand::errors::{GraphSchemaError, PlanCtxError};
use brahmand::expr::{
    AggregateFnCall, Column, ColumnAlias, Direction, InSubquery, Literal, Operator,
    OperatorApplication, PlanExpr, PropertyAccess, ScalarFnCall, SubquerySubPlan, TableAlias,
};
use brahmand::graph_schema::{
    GraphSchema, GraphSchemaElement, NodeIdSchema, NodeSchema, RelationshipSchema,
};
use brahmand::logical_plan::{GraphNode, GraphRel, LogicalPlan, ProjectionItem, Scan};
use brahmand::plan_ctx::{PlanCtx, TableCtx};
use brahmand::render_plan::to_sql::{generate_sql, int_to_string, join_strings, op_str};
use brahmand::render_plan::{
    Cte, CteItems, FilterItems, FromTable, FromTableItem, GroupByExpressions, JoinItems,
    LimitItem, OrderByItems, RenderPlan, SelectItem, SelectItems, SkipItem, ToSql, UnionItems,
};
use brahmand::transformed::Transformed;

fn pa(alias: &str, column: &str) -> PlanExpr {
    PlanExpr::PropertyAccessExp(PropertyAccess {
        table_alias: TableAlias(alias.to_string()),
        column: Column(column.to_string()),
    })
}

fn num(i: i64) -> PlanExpr {
    PlanExpr::Literal(Literal::Integer(i))
}

fn op(operator: Operator, operands: Vec<PlanExpr>) -> PlanExpr {
    PlanExpr::OperatorApplicationExp(OperatorApplication { operator, operands })
}

fn node_schema(table: &str, columns: &[&str]) -> NodeSchema {
    NodeSchema {
        table_name: table.to_string(),
        column_names: columns.iter().map(|c| c.to_string()).collect(),
        primary_keys: "id".to_string(),
        node_id: NodeIdSchema { column: "id".to_string(), dtype: "UInt64".to_string() },
    }
}

fn rel_schema(table: &str, from: &str, to: &str) -> RelationshipSchema {
    RelationshipSchema {
        table_name: table.to_string(),
        column_names: vec![],
        from_node: from.to_string(),
        to_node: to.to_string(),
        from_node_id_dtype: "UInt64".to_string(),
        to_node_id_dtype: "UInt64".to_string(),
    }
}

fn plain_plan(select: Vec<SelectItem>, from: Option<FromTable>) -> RenderPlan {
    RenderPlan {
        ctes: CteItems(vec![]),
        select: SelectItems(select),
        from: FromTableItem(from),
        joins: JoinItems(vec![]),
        filters: FilterItems(None),
        group_by: GroupByExpressions(vec![]),
        order_by: OrderByItems(vec![]),
        skip: SkipItem(None),
        limit: LimitItem(None),
        union: UnionItems(vec![]),
    }
}

#[test]
fn direction_reverse_swaps_incoming_and_outgoing() {
    assert_eq!(Direction::Incoming.reverse(), Direction::Outgoing);
    assert_eq!(Direction::Outgoing.reverse(), Direction::Incoming);
    assert_eq!(Direction::Either.reverse(), Direction::Either);
    assert_eq!(Direction::Incoming.as_str(), "incoming");
    assert_eq!(Direction::Outgoing.as_str(), "outgoing");
    assert_eq!(Direction::Either.as_str(), "either");
}

#[test]
fn transformed_hands_out_its_plan() {
    let yes = Transformed::Yes(7);
    let no = Transformed::No(9);
    assert!(yes.is_yes());
    assert!(!no.is_yes());
    assert_eq!(yes.get_plan(), 7);
    assert_eq!(no.get_plan(), 9);
}

#[test]
fn structural_equality_of_expressions() {
    let a = op(Operator::Equal, vec![pa("u", "id"), num(1)]);
    let b = op(Operator::Equal, vec![pa("u", "id"), num(1)]);
    let c = op(Operator::Equal, vec![pa("u", "id"), num(2)]);
    let d = op(Operator::NotEqual, vec![pa("u", "id"), num(1)]);
    assert!(a.same(&b));
    assert!(!a.same(&c));
    assert!(!a.same(&d));
    assert!(a.deep_clone().same(&a));
    assert_eq!(a.deep_clone(), a);
    assert!(!PlanExpr::Star.same(&PlanExpr::Column(Column("*".to_string()))));
    assert!(PlanExpr::List(vec![num(1), num(2)]).same(&PlanExpr::List(vec![num(1), num(2)])));
    assert!(!PlanExpr::List(vec![num(1)]).same(&PlanExpr::List(vec![num(1), num(2)])));
}

#[test]
fn aggregates_are_found_at_any_depth() {
    let count = PlanExpr::AggregateFnCall(AggregateFnCall {
        name: "count".to_string(),
        args: vec![PlanExpr::Star],
    });
    assert!(count.contains_aggregate());
    assert!(op(Operator::Addition, vec![count.deep_clone(), num(1)]).contains_aggregate());
    assert!(PlanExpr::ScalarFnCall(ScalarFnCall {
        name: "abs".to_string(),
        args: vec![count.deep_clone()],
    })
    .contains_aggregate());
    assert!(!op(Operator::Addition, vec![pa("u", "age"), num(1)]).contains_aggregate());
    assert!(!PlanExpr::Star.contains_aggregate());
}

#[test]
fn integers_are_written_in_decimal() {
    assert_eq!(int_to_string(0), "0");
    assert_eq!(int_to_string(7), "7");
    assert_eq!(int_to_string(10), "10");
    assert_eq!(int_to_string(2020), "2020");
    assert_eq!(int_to_string(-1), "-1");
    assert_eq!(int_to_string(-305), "-305");
    assert_eq!(int_to_string(i64::MAX), "9223372036854775807");
    assert_eq!(int_to_string(i64::MIN), "-9223372036854775808");
}

#[test]
fn operators_have_their_sql_tokens() {
    let expected = [
        (Operator::Addition, "+"),
        (Operator::Subtraction, "-"),
        (Operator::Multiplication, "*"),
        (Operator::Division, "/"),
        (Operator::ModuloDivision, "%"),
        (Operator::Exponentiation, "^"),
        (Operator::Equal, "="),
        (Operator::NotEqual, "<>"),
        (Operator::LessThan, "<"),
        (Operator::GreaterThan, ">"),
        (Operator::LessThanEqual, "<="),
        (Operator::GreaterThanEqual, ">="),
        (Operator::And, "AND"),
        (Operator::Or, "OR"),
        (Operator::In, "IN"),
        (Operator::NotIn, "NOT IN"),
        (Operator::Not, "NOT"),
        (Operator::Distinct, "DISTINCT"),
        (Operator::IsNull, "IS NULL"),
        (Operator::IsNotNull, "IS NOT NULL"),
    ];
    for (operator, token) in expected {
        assert_eq!(op_str(operator), token);
    }
}

#[test]
fn strings_are_joined_by_a_separator() {
    assert_eq!(join_strings(&vec![], ", "), "");
    assert_eq!(join_strings(&vec!["a".to_string()], ", "), "a");
    assert_eq!(
        join_strings(&vec!["a".to_string(), "b".to_string(), "c".to_string()], " AND "),
        "a AND b AND c"
    );
}

#[test]
fn expressions_render_to_sql() {
    assert_eq!(num(5).to_sql(), "5");
    assert_eq!(PlanExpr::Literal(Literal::Float("1.5".to_string())).to_sql(), "1.5");
    assert_eq!(PlanExpr::Literal(Literal::Boolean(true)).to_sql(), "true");
    assert_eq!(PlanExpr::Literal(Literal::Boolean(false)).to_sql(), "false");
    assert_eq!(PlanExpr::Literal(Literal::String("Mars".to_string())).to_sql(), "'Mars'");
    assert_eq!(PlanExpr::Literal(Literal::Null).to_sql(), "NULL");
    assert_eq!(PlanExpr::Star.to_sql(), "*");
    assert_eq!(PlanExpr::TableAlias(TableAlias("u".to_string())).to_sql(), "u");
    assert_eq!(PlanExpr::ColumnAlias(ColumnAlias("n".to_string())).to_sql(), "n");
    assert_eq!(PlanExpr::Column(Column("id".to_string())).to_sql(), "id");
    assert_eq!(PlanExpr::Parameter("user_id".to_string()).to_sql(), "user_id");
    assert_eq!(pa("u", "name").to_sql(), "u.name");
    assert_eq!(PlanExpr::List(vec![num(1), num(2), num(3)]).to_sql(), "(1, 2, 3)");
    assert_eq!(
        PlanExpr::ScalarFnCall(ScalarFnCall {
            name: "lower".to_string(),
            args: vec![pa("u", "name")],
        })
        .to_sql(),
        "lower(u.name)"
    );
    assert_eq!(
        PlanExpr::AggregateFnCall(AggregateFnCall {
            name: "count".to_string(),
            args: vec![PlanExpr::Star],
        })
        .to_sql(),
        "count(*)"
    );
}

#[test]
fn operators_render_prefix_infix_and_joined() {
    assert_eq!(op(Operator::Not, vec![pa("u", "active")]).to_sql(), "NOT u.active");
    assert_eq!(op(Operator::Equal, vec![pa("u", "id"), num(1)]).to_sql(), "u.id = 1");
    assert_eq!(
        op(Operator::And, vec![pa("a", "x"), pa("b", "y"), pa("c", "z")]).to_sql(),
        "a.x AND b.y AND c.z"
    );
    assert_eq!(op(Operator::Or, vec![]).to_sql(), "");
    assert_eq!(
        op(Operator::In, vec![pa("u", "id"), PlanExpr::List(vec![num(1), num(2)])]).to_sql(),
        "u.id IN (1, 2)"
    );
    let apply = OperatorApplication {
        operator: Operator::GreaterThanEqual,
        operands: vec![pa("u", "age"), num(18)],
    };
    assert_eq!(apply.to_sql(), "u.age >= 18");
}

#[test]
fn subqueries_render_as_in_select() {
    let sub = PlanExpr::InSubquery(InSubquery {
        expr: Box::new(PlanExpr::Column(Column("from_id".to_string()))),
        subplan: SubquerySubPlan { table_name: "User_u".to_string(), column: "id".to_string() },
    });
    assert_eq!(sub.to_sql(), "from_id IN (SELECT id FROM User_u)");
}

#[test]
fn clauses_render_in_their_order() {
    let mut plan = plain_plan(
        vec![
            SelectItem { expression: pa("u", "name"), col_alias: Some(ColumnAlias("n".to_string())) },
            SelectItem { expression: pa("u", "id"), col_alias: None },
        ],
        Some(FromTable { table_name: "User".to_string(), table_alias: Some("u".to_string()) }),
    );
    plan.filters = FilterItems(Some(op(Operator::Equal, vec![pa("u", "id"), num(1)])));
    plan.group_by = GroupByExpressions(vec![pa("u", "name"), pa("u", "id")]);
    plan.order_by = OrderByItems(vec![brahmand::logical_plan::OrderByItem {
        expression: PlanExpr::ColumnAlias(ColumnAlias("n".to_string())),
        order: brahmand::logical_plan::OrderByOrder::Desc,
    }]);
    plan.limit = LimitItem(Some(10));
    plan.skip = SkipItem(Some(20));
    assert_eq!(
        generate_sql(plan),
        "SELECT \n      u.name AS n, \n      u.id\nFROM User AS u\nWHERE u.id = 1\nGROUP BY u.name, u.id\nORDER BY n DESC\nLIMIT 10\nSKIP 20\n"
    );
}

#[test]
fn ctes_and_unions_render() {
    let inner = plain_plan(
        vec![SelectItem { expression: PlanExpr::Column(Column("id".to_string())), col_alias: None }],
        Some(FromTable { table_name: "User".to_string(), table_alias: None }),
    );
    let mut both = plain_plan(vec![], None);
    both.union = UnionItems(vec![
        plain_plan(
            vec![SelectItem { expression: PlanExpr::Star, col_alias: None }],
            Some(FromTable { table_name: "A".to_string(), table_alias: Some("".to_string()) }),
        ),
        plain_plan(
            vec![SelectItem { expression: PlanExpr::Star, col_alias: None }],
            Some(FromTable { table_name: "B".to_string(), table_alias: None }),
        ),
    ]);
    let mut outer = plain_plan(
        vec![SelectItem { expression: pa("u", "id"), col_alias: None }],
        Some(FromTable { table_name: "User_u".to_string(), table_alias: Some("u".to_string()) }),
    );
    outer.ctes = CteItems(vec![
        Cte { cte_name: "User_u".to_string(), cte_plan: inner },
        Cte { cte_name: "AB".to_string(), cte_plan: both },
    ]);
    assert_eq!(
        outer.to_sql(),
        "WITH User_u AS (\nSELECT \n      id\nFROM User\n), \nAB AS (\nSELECT \n      *\nFROM A\nUNION ALL\nSELECT \n      *\nFROM B\n)\nSELECT \n      u.id\nFROM User_u AS u\n"
    );
    assert_eq!(SelectItems(vec![]).to_sql(), "");
    assert_eq!(FromTableItem(None).to_sql(), "");
    assert_eq!(FilterItems(None).to_sql(), "");
    assert_eq!(LimitItem(None).to_sql(), "");
    assert_eq!(SkipItem(Some(3)).to_sql(), "SKIP 3\n");
    assert_eq!(CteItems(vec![]).to_sql(), "");
}

#[test]
fn catalog_keeps_one_schema_per_label() {
    let mut schema = GraphSchema::build(
        3,
        vec![
            ("User".to_string(), node_schema("User", &["id"])),
            ("Post".to_string(), node_schema("Post", &["id"])),
            ("User".to_string(), node_schema("User", &["id", "name"])),
        ],
        vec![("FOLLOWS".to_string(), rel_schema("FOLLOWS", "User", "User"))],
    );
    assert_eq!(schema.get_version(), 3);
    assert_eq!(schema.get_nodes_schemas().len(), 2);
    assert_eq!(schema.get_nodes_schemas()[0].0, "User");
    assert_eq!(schema.get_node_schema("User").unwrap().column_names.len(), 2);
    assert_eq!(schema.get_node_schema_opt("Post").unwrap().table_name, "Post");
    assert!(schema.get_node_schema_opt("Planet").is_none());
    assert_eq!(
        schema.get_node_schema("Planet"),
        Err(GraphSchemaError::NoNodeSchemaFound { node_label: "Planet".to_string() })
    );
    assert_eq!(
        schema.get_rel_schema("LIKES"),
        Err(GraphSchemaError::NoRelationSchemaFound { rel_label: "LIKES".to_string() })
    );
    assert_eq!(schema.get_rel_schema("FOLLOWS").unwrap().to_node, "User");
    assert!(schema.get_relationships_schema_opt("LIKES").is_none());

    schema.insert_rel_schema("LIKES".to_string(), rel_schema("LIKES", "User", "Post"));
    schema.insert_node_schema("Post".to_string(), node_schema("Post", &["id", "title"]));
    schema.increment_version();
    assert_eq!(schema.get_version(), 4);
    assert_eq!(schema.get_relationships_schemas().len(), 2);
    assert_eq!(schema.get_relationships_schema_opt("LIKES").unwrap().to_node, "Post");
    assert_eq!(schema.get_nodes_schemas().len(), 2);
    assert_eq!(schema.get_node_schema("Post").unwrap().column_names.len(), 2);
}

#[test]
fn table_context_collects_filters_and_projections() {
    let mut ctx = TableCtx::build(Some("User".to_string()), vec![], false, true);
    assert!(ctx.get_filters().is_empty());
    assert!(ctx.get_projections().is_empty());
    assert!(!ctx.should_use_edge_list());
    assert!(ctx.is_explicit_alias());
    assert!(!ctx.is_relation());

    let filter = op(Operator::Equal, vec![PlanExpr::Column(Column("id".to_string())), num(1)]);
    ctx.insert_filter(filter.deep_clone());
    ctx.insert_filter(filter.deep_clone());
    assert_eq!(ctx.get_filters().len(), 1);
    ctx.append_filters(&mut vec![filter.deep_clone()]);
    assert_eq!(ctx.get_filters().len(), 2);
    assert!(ctx.should_use_edge_list());

    let item = ProjectionItem { expression: pa("u", "name"), col_alias: None };
    ctx.insert_projection(item.deep_clone());
    ctx.insert_projection(item.deep_clone());
    assert_eq!(ctx.get_projections().len(), 1);
    ctx.push_projection(item.deep_clone());
    ctx.append_projection(&mut vec![item.deep_clone()]);
    assert_eq!(ctx.get_projections().len(), 3);
    ctx.set_projections(vec![]);
    assert!(ctx.get_projections().is_empty());

    ctx.set_label(None);
    assert_eq!(ctx.get_label_opt(), None);
    ctx.set_use_edge_list(true);
    assert!(ctx.use_edge_list);
}

#[test]
fn plan_context_looks_aliases_up() {
    let mut ctx = PlanCtx::default();
    assert_eq!(ctx.len(), 0);
    assert_eq!(
        ctx.get_table_ctx("u").err(),
        Some(PlanCtxError::MissingTableCtx { alias: "u".to_string() })
    );
    assert_eq!(
        ctx.get_node_table_ctx("u").err(),
        Some(PlanCtxError::MissingNodeTableCtx { alias: "u".to_string() })
    );
    assert_eq!(
        ctx.get_rel_table_ctx("r").err(),
        Some(PlanCtxError::MissingRelTableCtx { alias: "r".to_string() })
    );
    ctx.insert_table_ctx("u".to_string(), TableCtx::build(None, vec![], false, true));
    ctx.insert_table_ctx("r".to_string(), TableCtx::build(None, vec![], true, false));
    ctx.set_table_ctx(
        "u".to_string(),
        TableCtx::build(Some("User".to_string()), vec![], false, true),
    );
    assert_eq!(ctx.len(), 2);
    assert_eq!(ctx.get_alias_table_ctx_map()[0].0, "u");
    assert_eq!(ctx.get_table_ctx("u").unwrap().label, Some("User".to_string()));
    assert!(ctx.get_rel_table_ctx_opt("r").unwrap().is_rel);
    assert!(ctx.get_node_table_ctx_opt("x").is_none());

    ctx.get_mut_table_ctx_opt("r").unwrap().set_label(Some("FOLLOWS".to_string()));
    assert_eq!(ctx.get_rel_table_ctx("r").unwrap().label, Some("FOLLOWS".to_string()));
    assert!(ctx.get_mut_table_ctx_opt("x").is_none());
    ctx.get_mut_table_ctx_at(0).set_use_edge_list(true);
    assert!(ctx.get_table_ctx("u").unwrap().use_edge_list);

    assert_eq!(ctx.get_last_node(), "");
    ctx.set_last_node("u".to_string());
    assert_eq!(ctx.get_last_node(), "u");
}

#[test]
fn a_context_hands_out_copies_and_places() {
    let mut ctx = PlanCtx::default();
    ctx.insert_table_ctx("u".to_string(), TableCtx::build(Some("User".to_string()), vec![], false, true));
    ctx.insert_table_ctx("f".to_string(), TableCtx::build(None, vec![], true, false));

    let mut copy = ctx.get_mut_table_ctx("u").unwrap();
    copy.set_label(Some("Other".to_string()));
    assert_eq!(ctx.get_table_ctx("u").unwrap().label, Some("User".to_string()));
    assert_eq!(ctx.get_mut_node_table_ctx("u").unwrap().label, Some("User".to_string()));
    assert!(ctx.get_mut_rel_table_ctx("f").unwrap().is_relation());
    assert_eq!(
        ctx.get_mut_table_ctx("x").err(),
        Some(PlanCtxError::MissingTableCtx { alias: "x".to_string() })
    );
    assert_eq!(
        ctx.get_mut_node_table_ctx("x").err(),
        Some(PlanCtxError::MissingNodeTableCtx { alias: "x".to_string() })
    );
    assert_eq!(
        ctx.get_mut_rel_table_ctx("x").err(),
        Some(PlanCtxError::MissingRelTableCtx { alias: "x".to_string() })
    );

    ctx.get_mut_node_table_ctx_opt("u").unwrap().set_label(Some("Person".to_string()));
    assert_eq!(ctx.get_table_ctx("u").unwrap().label, Some("Person".to_string()));
    ctx.get_mut_rel_table_ctx_opt("f").unwrap().set_use_edge_list(true);
    assert!(ctx.get_table_ctx("f").unwrap().use_edge_list);
    assert!(ctx.get_mut_node_table_ctx_opt("x").is_none());
    assert!(ctx.get_mut_rel_table_ctx_opt("x").is_none());
    assert_eq!(ctx.len(), 2);
}

#[test]
fn relationships_are_listed_before_their_children() {
    let node = |alias: &str| {
        Arc::new(LogicalPlan::GraphNode(GraphNode {
            input: Arc::new(LogicalPlan::Scan(Scan {
                table_alias: alias.to_string(),
                table_name: None,
            })),
            alias: alias.to_string(),
            down_connection: None,
        }))
    };
    let rel = |alias: &str, left: Arc<LogicalPlan>, lc: &str, right: Arc<LogicalPlan>, rc: &str| {
        Arc::new(LogicalPlan::GraphRel(GraphRel {
            left,
            center: Arc::new(LogicalPlan::Scan(Scan {
                table_alias: alias.to_string(),
                table_name: None,
            })),
            right,
            alias: alias.to_string(),
            direction: Direction::Outgoing,
            left_connection: lc.to_string(),
            right_connection: rc.to_string(),
            is_rel_anchor: false,
        }))
    };
    let inner = rel("r1", node("b"), "b", node("a"), "a");
    let outer = rel("r2", node("c"), "c", inner, "b");
    assert_eq!(
        outer.graph_rels(),
        vec![
            ("r2".to_string(), "c".to_string(), "b".to_string()),
            ("r1".to_string(), "b".to_string(), "a".to_string()),
        ]
    );
    assert!(node("a").graph_rels().is_empty());
}

#[test]
fn a_relationship_needs_the_labels_of_both_ends() {
    let node = |table: &str| NodeSchema {
        table_name: table.to_string(),
        column_names: vec!["id".to_string()],
        primary_keys: "id".to_string(),
        node_id: NodeIdSchema { column: "id".to_string(), dtype: "UInt64".to_string() },
    };
    let rel = |from: &str, to: &str| RelationshipSchema {
        table_name: "WROTE".to_string(),
        column_names: vec![],
        from_node: from.to_string(),
        to_node: to.to_string(),
        from_node_id_dtype: "UInt64".to_string(),
        to_node_id_dtype: "UInt64".to_string(),
    };
    let mut schema = GraphSchema::empty(7);
    assert!(schema.accepts(&GraphSchemaElement::Node(node("User"))));
    assert!(!schema.accepts(&GraphSchemaElement::Rel(rel("User", "Post"))));

    schema.add_element(GraphSchemaElement::Node(node("User")));
    assert_eq!(schema.get_version(), 8);
    assert!(!schema.accepts(&GraphSchemaElement::Rel(rel("User", "Post"))));
    assert!(!schema.accepts(&GraphSchemaElement::Rel(rel("Post", "User"))));
    assert!(schema.accepts(&GraphSchemaElement::Rel(rel("User", "User"))));

    schema.add_element(GraphSchemaElement::Node(node("Post")));
    assert!(schema.accepts(&GraphSchemaElement::Rel(rel("User", "Post"))));
    schema.add_element(GraphSchemaElement::Rel(rel("User", "Post")));
    assert_eq!(schema.get_version(), 10);
    assert_eq!(schema.get_rel_schema("WROTE").unwrap().to_node, "Post");
    assert_eq!(schema.get_nodes_schemas().len(), 2);

    schema.add_element(GraphSchemaElement::Node(node("User")));
    assert_eq!(schema.get_nodes_schemas().len(), 2);
    assert_eq!(schema.get_version(), 11);
}
