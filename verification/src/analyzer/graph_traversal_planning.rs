//! Graph-traversal planning: every relationship gets its physical form
//! (edge list or bitmap index), its three children are wrapped in CTEs
//! named `{label}_{alias}`, and the context learns which columns and
//! `IN` subqueries each CTE needs.
use vstd::prelude::*;
use vstd::string::StringExecFns;
use std::sync::Arc;
use crate::analyzer::analyzer_pass::{analyzed, untouched, Analysis, AnalyzerPass};
use crate::analyzer::pattern_lookup::{check_pattern, pattern_miss};
use crate::errors::{
    AnalyzerError, AnalyzerErrorV, GraphSchemaError, GraphSchemaErrorV, Pass, PlanCtxError,
    PlanCtxErrorV,
};
use crate::expr::{
    lemma_expr_view, Column, ColumnAlias, Direction, ExprV, InSubquery, InSubqueryV, PlanExpr,
    SubquerySubPlan,
};
use crate::graph_schema::{GraphSchema, GraphSchemaV};
use crate::logical_plan::{
    clone_items, lemma_union_view, rebuild, rebuild_single, rebuild_union,
    rebuild_union_node, single_input, tf_view, tfs_view, union_input, union_len, Cte, GraphRel,
    LogicalPlan, PlanV, ProjectionItem, ProjectionItemV, Scan, Union,
};
use crate::plan_ctx::{push_new, PlanCtx, PlanCtxV, TableCtx, TableCtxV};
use crate::text::{concat, join_underscore, joined};
use crate::transformed::Transformed;
use crate::views::{opt_view, seq_view, Text};

verus! {

broadcast use lemma_expr_view, lemma_union_view;

pub struct GraphTRaversalPlanning;

/// What one alias is to learn from the planning of a relationship.
#[derive(Debug, Clone, PartialEq)]
pub struct CtxToUpdate {
    pub alias: String,
    pub label: String,
    pub projections: Vec<ProjectionItem>,
    pub insubquery: Option<PlanExpr>,
    pub override_projections: bool,
    pub is_rel: bool,
}

pub ghost struct CtxToUpdateV {
    pub alias: Text,
    pub label: Text,
    pub projections: Seq<ProjectionItemV>,
    pub insubquery: Option<ExprV>,
    pub override_projections: bool,
    pub is_rel: bool,
}

impl View for CtxToUpdate {
    type V = CtxToUpdateV;

    open spec fn view(&self) -> CtxToUpdateV {
        CtxToUpdateV {
            alias: self.alias@,
            label: self.label@,
            projections: seq_view(self.projections@),
            insubquery: opt_view(self.insubquery),
            override_projections: self.override_projections,
            is_rel: self.is_rel,
        }
    }
}

/// What planning knows of one endpoint of a relationship.
#[derive(Debug, Clone, PartialEq)]
pub struct GraphNodeContext {
    pub alias: String,
    pub label: String,
    pub table_name: String,
    pub id_column: String,
    pub cte_name: String,
    pub projections: Vec<ProjectionItem>,
}

/// What planning knows of the relationship itself.
#[derive(Debug, Clone, PartialEq)]
pub struct GraphRelContext {
    pub alias: String,
    pub label: String,
    pub from_node: String,
    pub to_node: String,
    pub star_found: bool,
    pub use_edge_list: bool,
}

/// What planning knows of a pattern `(left)-[rel]-(right)`.
#[derive(Debug, Clone, PartialEq)]
pub struct GraphContext {
    pub left: GraphNodeContext,
    pub rel: GraphRelContext,
    pub right: GraphNodeContext,
}

pub ghost struct GraphNodeContextV {
    pub alias: Text,
    pub label: Text,
    pub table_name: Text,
    pub id_column: Text,
    pub cte_name: Text,
    pub projections: Seq<ProjectionItemV>,
}

pub ghost struct GraphRelContextV {
    pub alias: Text,
    pub label: Text,
    pub from_node: Text,
    pub to_node: Text,
    pub star_found: bool,
    pub use_edge_list: bool,
}

pub ghost struct GraphContextV {
    pub left: GraphNodeContextV,
    pub rel: GraphRelContextV,
    pub right: GraphNodeContextV,
}

impl View for GraphNodeContext {
    type V = GraphNodeContextV;

    open spec fn view(&self) -> GraphNodeContextV {
        GraphNodeContextV {
            alias: self.alias@,
            label: self.label@,
            table_name: self.table_name@,
            id_column: self.id_column@,
            cte_name: self.cte_name@,
            projections: seq_view(self.projections@),
        }
    }
}

impl View for GraphRelContext {
    type V = GraphRelContextV;

    open spec fn view(&self) -> GraphRelContextV {
        GraphRelContextV {
            alias: self.alias@,
            label: self.label@,
            from_node: self.from_node@,
            to_node: self.to_node@,
            star_found: self.star_found,
            use_edge_list: self.use_edge_list,
        }
    }
}

impl View for GraphContext {
    type V = GraphContextV;

    open spec fn view(&self) -> GraphContextV {
        GraphContextV { left: self.left@, rel: self.rel@, right: self.right@ }
    }
}

/// `true` when one of the items is `*`.
pub open spec fn has_star(items: Seq<ProjectionItemV>) -> bool {
    exists|i: int| 0 <= i < items.len() && items[i].expression is Star
}

/// `true` when the expression is the column `id`, bare or of an alias.
pub open spec fn names_column(e: ExprV, id: Text) -> bool {
    match e {
        ExprV::Column(c) => c == id,
        ExprV::PropertyAccess(pa) => pa.column == id,
        _ => false,
    }
}

/// `true` when one of the items is the column `id`.
pub open spec fn has_column(items: Seq<ProjectionItemV>, id: Text) -> bool {
    exists|i: int| 0 <= i < items.len() && names_column(items[i].expression, id)
}

/// The bare column `name`, under an alias or not.
pub open spec fn column_item(name: Text, alias: Option<Text>) -> ProjectionItemV {
    ProjectionItemV { expression: ExprV::Column(name), col_alias: alias }
}

/// The id column as a projection, unless the items give it already.
pub open spec fn id_projection(items: Seq<ProjectionItemV>, id: Text) -> Seq<ProjectionItemV> {
    if !has_star(items) && !has_column(items, id) {
        seq![column_item(id, None)]
    } else {
        Seq::empty()
    }
}

/// `sub_in IN (SELECT column FROM table)`.
pub open spec fn in_subquery(sub_in: Text, table: Text, column: Text) -> ExprV {
    ExprV::InSubquery(
        InSubqueryV { expr: Box::new(ExprV::Column(sub_in)), table_name: table, column },
    )
}

pub open spec fn ctx_error(source: PlanCtxErrorV) -> AnalyzerErrorV {
    AnalyzerErrorV::PlanCtx { pass: Pass::GraphTraversalPlanning, source }
}

pub open spec fn schema_error(source: GraphSchemaErrorV) -> AnalyzerErrorV {
    AnalyzerErrorV::GraphSchema { pass: Pass::GraphTraversalPlanning, source }
}

/// What planning knows of a node alias: its context, label and schema.
pub open spec fn node_context(ctx: PlanCtxV, schema: GraphSchemaV, alias: Text) -> Result<
    GraphNodeContextV,
    AnalyzerErrorV,
> {
    match ctx.get(alias) {
        None => Err(ctx_error(PlanCtxErrorV::MissingNodeTableCtx { alias })),
        Some(t) => match t.label {
            None => Err(ctx_error(PlanCtxErrorV::MissingLabel { alias })),
            Some(label) => match schema.node(label) {
                None => Err(schema_error(GraphSchemaErrorV::NoNodeSchemaFound { node_label: label })),
                Some(n) => Ok(
                    GraphNodeContextV {
                        alias,
                        label,
                        table_name: n.table_name,
                        id_column: n.id_column,
                        cte_name: joined(label, alias),
                        projections: t.projection_items,
                    },
                ),
            },
        },
    }
}

/// What planning knows of a relationship alias.
pub open spec fn rel_context(ctx: PlanCtxV, schema: GraphSchemaV, alias: Text) -> Result<
    GraphRelContextV,
    AnalyzerErrorV,
> {
    match ctx.get(alias) {
        None => Err(ctx_error(PlanCtxErrorV::MissingRelTableCtx { alias })),
        Some(t) => match t.label {
            None => Err(ctx_error(PlanCtxErrorV::MissingLabel { alias })),
            Some(label) => match schema.relationship(label) {
                None => Err(
                    schema_error(GraphSchemaErrorV::NoRelationSchemaFound { rel_label: label }),
                ),
                Some(r) => Ok(
                    GraphRelContextV {
                        alias,
                        label,
                        from_node: r.from_node,
                        to_node: r.to_node,
                        star_found: has_star(t.projection_items),
                        use_edge_list: t.needs_edge_list(),
                    },
                ),
            },
        },
    }
}

/// What planning knows of a pattern, or the first thing that is missing:
/// the contexts of the three aliases are looked up first, then their
/// labels, then their schemas.
pub open spec fn graph_context(
    ctx: PlanCtxV,
    schema: GraphSchemaV,
    left_connection: Text,
    alias: Text,
    right_connection: Text,
) -> Result<GraphContextV, AnalyzerErrorV> {
    match pattern_miss(
        Pass::GraphTraversalPlanning,
        ctx,
        schema,
        left_connection,
        alias,
        right_connection,
        false,
    ) {
        Some(e) => Err(e),
        None => match node_context(ctx, schema, left_connection) {
            Err(e) => Err(e),
            Ok(left) => match rel_context(ctx, schema, alias) {
                Err(e) => Err(e),
                Ok(rel) => match node_context(ctx, schema, right_connection) {
                    Err(e) => Err(e),
                    Ok(right) => Ok(GraphContextV { left, rel, right }),
                },
            },
        },
    }
}

/// The columns of an edge list as `(from_id, to_id)`; none where the query
/// asks for every column.
pub open spec fn edge_columns(g: GraphContextV, swapped: bool) -> Seq<ProjectionItemV> {
    if g.rel.star_found {
        Seq::empty()
    } else if swapped {
        seq![
            column_item("to_"@ + g.rel.from_node, Some("from_id"@)),
            column_item("from_"@ + g.rel.to_node, Some("to_id"@)),
        ]
    } else {
        seq![
            column_item("from_"@ + g.rel.from_node, Some("from_id"@)),
            column_item("to_"@ + g.rel.to_node, Some("to_id"@)),
        ]
    }
}

/// The columns of a bitmap index read: `from_id` and the expanded bitmap.
pub open spec fn bitmap_columns() -> Seq<ProjectionItemV> {
    seq![
        column_item("from_id"@, None),
        column_item("arrayJoin(bitmapToArray(to_id))"@, Some("to_id"@)),
    ]
}

/// A scan of a table under an alias.
pub open spec fn scan_of(alias: Text, table: Text) -> PlanV {
    PlanV::Scan { table_alias: alias, table_name: Some(table) }
}

/// The relationship CTE of an edge-list read: its name, its plan, and what
/// the context is to learn. An either-direction relationship between
/// nodes of one label reads the edge list twice, once with the columns
/// swapped.
pub open spec fn edge_list_rel(
    g: GraphContextV,
    direction: Direction,
    center: PlanV,
    connected_cte: Text,
    connected_id: Text,
    is_rel_anchor: bool,
    outgoing_alias: Text,
    incoming_alias: Text,
) -> (Text, PlanV, Seq<CtxToUpdateV>) {
    let name = joined(g.rel.label, g.rel.alias);
    if direction == Direction::Either && g.left.label == g.right.label && !is_rel_anchor {
        let sub = in_subquery("from_id"@, connected_cte, connected_id);
        (
            name,
            PlanV::Union {
                inputs: seq![
                    scan_of(outgoing_alias, g.rel.label),
                    scan_of(incoming_alias, g.rel.label),
                ],
            },
            seq![
                CtxToUpdateV {
                    alias: outgoing_alias,
                    label: g.rel.label,
                    projections: edge_columns(g, false),
                    insubquery: Some(sub),
                    override_projections: false,
                    is_rel: true,
                },
                CtxToUpdateV {
                    alias: incoming_alias,
                    label: g.rel.label,
                    projections: edge_columns(g, true),
                    insubquery: Some(sub),
                    override_projections: false,
                    is_rel: true,
                },
            ],
        )
    } else {
        let sub_in = if direction == Direction::Outgoing {
            "from_id"@
        } else {
            "to_id"@
        };
        (
            name,
            center,
            seq![
                CtxToUpdateV {
                    alias: g.rel.alias,
                    label: g.rel.label,
                    projections: edge_columns(g, false),
                    insubquery: Some(in_subquery(sub_in, connected_cte, connected_id)),
                    override_projections: false,
                    is_rel: true,
                },
            ],
        )
    }
}

/// The direction of the index table to read: the direction of the edge
/// between nodes of one label, else the one that puts the right endpoint
/// at the `from` side.
pub open spec fn index_direction(g: GraphContextV, direction: Direction) -> Direction {
    if g.left.label == g.right.label {
        direction
    } else if g.rel.from_node == g.right.table_name {
        Direction::Outgoing
    } else {
        Direction::Incoming
    }
}

/// The relationship CTE of a bitmap-index read. An either-direction
/// relationship between nodes of one label reads both index tables.
pub open spec fn bitmap_rel(
    g: GraphContextV,
    direction: Direction,
    center: PlanV,
    connected_cte: Text,
    connected_id: Text,
    outgoing_alias: Text,
    incoming_alias: Text,
) -> (Text, PlanV, Seq<CtxToUpdateV>) {
    let sub = in_subquery("from_id"@, connected_cte, connected_id);
    if direction == Direction::Either && g.left.label == g.right.label {
        let label = joined(g.rel.label, Direction::Either.name());
        let outgoing_label = joined(g.rel.label, Direction::Outgoing.name());
        let incoming_label = joined(g.rel.label, Direction::Incoming.name());
        (
            joined(label, g.rel.alias),
            PlanV::Union {
                inputs: seq![
                    scan_of(outgoing_alias, outgoing_label),
                    scan_of(incoming_alias, incoming_label),
                ],
            },
            seq![
                CtxToUpdateV {
                    alias: g.rel.alias,
                    label,
                    projections: Seq::empty(),
                    insubquery: None,
                    override_projections: false,
                    is_rel: true,
                },
                CtxToUpdateV {
                    alias: outgoing_alias,
                    label: outgoing_label,
                    projections: bitmap_columns(),
                    insubquery: Some(sub),
                    override_projections: false,
                    is_rel: true,
                },
                CtxToUpdateV {
                    alias: incoming_alias,
                    label: incoming_label,
                    projections: bitmap_columns(),
                    insubquery: Some(sub),
                    override_projections: false,
                    is_rel: true,
                },
            ],
        )
    } else {
        let label = joined(g.rel.label, index_direction(g, direction).name());
        (
            joined(label, g.rel.alias),
            center,
            seq![
                CtxToUpdateV {
                    alias: g.rel.alias,
                    label,
                    projections: bitmap_columns(),
                    insubquery: Some(sub),
                    override_projections: false,
                    is_rel: true,
                },
            ],
        )
    }
}

/// What a node alias is to learn.
pub open spec fn node_update(
    n: GraphNodeContextV,
    insubquery: Option<ExprV>,
    is_rel: bool,
) -> CtxToUpdateV {
    CtxToUpdateV {
        alias: n.alias,
        label: n.label,
        projections: id_projection(n.projections, n.id_column),
        insubquery,
        override_projections: false,
        is_rel,
    }
}

/// The plan under a CTE of the given name.
pub open spec fn cte_over(input: PlanV, name: Text) -> PlanV {
    PlanV::Cte { input: Box::new(input), name }
}

/// The relationship with its children wrapped in CTEs, and what the
/// context is to learn of the three aliases.
///
/// The left endpoint is always wrapped. The right endpoint is wrapped only
/// where the relationship is the first of the traversal (`is_anchor`): the
/// relationships below have wrapped it otherwise. Of a relationship that
/// is itself the anchor, the center child is the node of the right
/// connection and the right child the scan of the relationship; each is
/// wrapped under its own name.
pub open spec fn traversal(
    p: PlanV,
    g: GraphContextV,
    is_anchor: bool,
    outgoing_alias: Text,
    incoming_alias: Text,
) -> (PlanV, Seq<CtxToUpdateV>)
    recommends
        p is GraphRel,
{
    match p {
        PlanV::GraphRel {
            left,
            center,
            right,
            alias,
            direction,
            left_connection,
            right_connection,
            is_rel_anchor,
        } => {
            if g.rel.use_edge_list {
                let from_right = g.rel.from_node == g.right.table_name;
                let (rel_name, rel_plan, rel_updates) = if from_right {
                    edge_list_rel(
                        g,
                        direction,
                        *center,
                        g.right.cte_name,
                        g.right.id_column,
                        is_rel_anchor,
                        outgoing_alias,
                        incoming_alias,
                    )
                } else {
                    edge_list_rel(
                        g,
                        direction,
                        *center,
                        g.left.cte_name,
                        g.left.id_column,
                        is_rel_anchor,
                        outgoing_alias,
                        incoming_alias,
                    )
                };
                let right_sub = in_subquery(g.right.id_column, rel_name, if from_right {
                    "from_id"@
                } else {
                    "to_id"@
                });
                let left_sub = in_subquery(g.left.id_column, rel_name, if from_right {
                    "to_id"@
                } else {
                    "from_id"@
                });
                if is_rel_anchor {
                    (
                        p.with_children(
                            cte_over(*left, g.left.cte_name),
                            cte_over(*center, g.right.cte_name),
                            cte_over(*right, rel_name),
                        ),
                        seq![node_update(g.right, Some(right_sub), true)] + rel_updates.update(
                            0,
                            CtxToUpdateV { insubquery: None, ..rel_updates[0] },
                        ) + seq![node_update(g.left, Some(left_sub), false)],
                    )
                } else if is_anchor {
                    (
                        p.with_children(
                            cte_over(*left, g.left.cte_name),
                            cte_over(rel_plan, rel_name),
                            cte_over(*right, g.right.cte_name),
                        ),
                        rel_updates + seq![
                            node_update(g.left, Some(left_sub), false),
                            node_update(g.right, None, false),
                        ],
                    )
                } else {
                    (
                        p.with_children(
                            cte_over(*left, g.left.cte_name),
                            cte_over(rel_plan, rel_name),
                            *right,
                        ),
                        rel_updates + seq![node_update(g.left, Some(left_sub), false)],
                    )
                }
            } else {
                let (rel_name, rel_plan, rel_updates) = bitmap_rel(
                    g,
                    direction,
                    *center,
                    g.right.cte_name,
                    g.right.id_column,
                    outgoing_alias,
                    incoming_alias,
                );
                let left_sub = in_subquery(g.left.id_column, rel_name, "to_id"@);
                if is_anchor {
                    (
                        p.with_children(
                            cte_over(*left, g.left.cte_name),
                            cte_over(rel_plan, rel_name),
                            cte_over(*right, g.right.cte_name),
                        ),
                        rel_updates + seq![
                            node_update(g.left, Some(left_sub), false),
                            node_update(g.right, None, false),
                        ],
                    )
                } else {
                    (
                        p.with_children(
                            cte_over(*left, g.left.cte_name),
                            cte_over(rel_plan, rel_name),
                            *right,
                        ),
                        rel_updates + seq![node_update(g.left, Some(left_sub), false)],
                    )
                }
            }
        },
        other => (other, Seq::empty()),
    }
}

/// The planning of one relationship: the new relationship node and what
/// the context is to learn, or the error of the first lookup that fails.
pub open spec fn infer_traversal(
    p: PlanV,
    ctx: PlanCtxV,
    schema: GraphSchemaV,
    is_anchor: bool,
    outgoing_alias: Text,
    incoming_alias: Text,
) -> Result<(PlanV, Seq<CtxToUpdateV>), AnalyzerErrorV>
    recommends
        p is GraphRel,
{
    match p {
        PlanV::GraphRel { alias, left_connection, right_connection, .. } => match graph_context(
            ctx,
            schema,
            left_connection,
            alias,
            right_connection,
        ) {
            Err(e) => Err(e),
            Ok(g) => Ok(traversal(p, g, is_anchor, outgoing_alias, incoming_alias)),
        },
        _ => Ok((p, Seq::empty())),
    }
}

/// The context after one alias learned what planning found.
pub open spec fn apply_update(ctx: PlanCtxV, u: CtxToUpdateV) -> PlanCtxV {
    match ctx.get(u.alias) {
        Some(t) => ctx.with(
            u.alias,
            TableCtxV {
                label: Some(u.label),
                filter_predicates: match u.insubquery {
                    Some(e) => push_new(t.filter_predicates, e),
                    None => t.filter_predicates,
                },
                projection_items: if u.override_projections {
                    u.projections
                } else {
                    t.projection_items + u.projections
                },
                ..t
            },
        ),
        None => ctx.with(
            u.alias,
            TableCtxV {
                label: Some(u.label),
                properties: Seq::empty(),
                filter_predicates: match u.insubquery {
                    Some(e) => seq![e],
                    None => Seq::empty(),
                },
                projection_items: u.projections,
                is_rel: u.is_rel,
                use_edge_list: false,
                explicit_alias: false,
            },
        ),
    }
}

/// The context after the aliases learned in turn what planning found.
pub open spec fn apply_updates(ctx: PlanCtxV, us: Seq<CtxToUpdateV>) -> PlanCtxV
    decreases us.len(),
{
    if us.len() == 0 {
        ctx
    } else {
        apply_update(apply_updates(ctx, us.drop_last()), us.last())
    }
}

fn err_ctx(source: PlanCtxError) -> (e: AnalyzerError)
    ensures
        e@ == ctx_error(source@),
{
    AnalyzerError::PlanCtx { pass: Pass::GraphTraversalPlanning, source }
}

fn err_schema(source: GraphSchemaError) -> (e: AnalyzerError)
    ensures
        e@ == schema_error(source@),
{
    AnalyzerError::GraphSchema { pass: Pass::GraphTraversalPlanning, source }
}

fn star_found(items: &Vec<ProjectionItem>) -> (r: bool)
    ensures
        r == has_star(seq_view(items@)),
{
    let mut i: usize = 0;
    while i < items.len()
        invariant
            i <= items.len(),
            forall|j: int| 0 <= j < i ==> !(seq_view(items@)[j].expression is Star),
        decreases items.len() - i,
    {
        if items[i].expression.is_star() {
            assert(seq_view(items@)[i as int].expression is Star);
            return true;
        }
        i += 1;
    }
    false
}

fn column_found(items: &Vec<ProjectionItem>, id: &String) -> (r: bool)
    ensures
        r == has_column(seq_view(items@), id@),
{
    let mut i: usize = 0;
    while i < items.len()
        invariant
            i <= items.len(),
            forall|j: int| 0 <= j < i ==> !names_column(seq_view(items@)[j].expression, id@),
        decreases items.len() - i,
    {
        let hit = match &items[i].expression {
            PlanExpr::Column(c) => c.0 == *id,
            PlanExpr::PropertyAccessExp(pa) => pa.column.0 == *id,
            _ => false,
        };
        if hit {
            assert(names_column(seq_view(items@)[i as int].expression, id@));
            return true;
        }
        i += 1;
    }
    false
}

fn make_column_item(name: String, alias: Option<&str>) -> (r: ProjectionItem)
    ensures
        r@ == column_item(
            name@,
            match alias {
                Some(a) => Some(a@),
                None => None,
            },
        ),
{
    ProjectionItem {
        expression: PlanExpr::Column(Column(name)),
        col_alias: match alias {
            Some(a) => Some(ColumnAlias(String::from_str(a))),
            None => None,
        },
    }
}

fn make_id_projection(items: &Vec<ProjectionItem>, id: &String) -> (r: Vec<ProjectionItem>)
    ensures
        seq_view(r@) == id_projection(seq_view(items@), id@),
{
    if !star_found(items) && !column_found(items, id) {
        let v = vec![make_column_item(id.clone(), None)];
        assert(seq_view(v@) =~= seq![column_item(id@, None)]);
        v
    } else {
        let v: Vec<ProjectionItem> = Vec::new();
        assert(seq_view(v@) =~= Seq::empty());
        v
    }
}

fn make_edge_columns(g: &GraphContext, swapped: bool) -> (r: Vec<ProjectionItem>)
    ensures
        seq_view(r@) == edge_columns(g@, swapped),
{
    if g.rel.star_found {
        let v: Vec<ProjectionItem> = Vec::new();
        assert(seq_view(v@) =~= Seq::empty());
        v
    } else if swapped {
        let v = vec![
            make_column_item(concat("to_", g.rel.from_node.as_str()), Some("from_id")),
            make_column_item(concat("from_", g.rel.to_node.as_str()), Some("to_id")),
        ];
        assert(seq_view(v@) =~= edge_columns(g@, swapped));
        v
    } else {
        let v = vec![
            make_column_item(concat("from_", g.rel.from_node.as_str()), Some("from_id")),
            make_column_item(concat("to_", g.rel.to_node.as_str()), Some("to_id")),
        ];
        assert(seq_view(v@) =~= edge_columns(g@, swapped));
        v
    }
}

fn make_bitmap_columns() -> (r: Vec<ProjectionItem>)
    ensures
        seq_view(r@) == bitmap_columns(),
{
    let v = vec![
        make_column_item(String::from_str("from_id"), None),
        make_column_item(String::from_str("arrayJoin(bitmapToArray(to_id))"), Some("to_id")),
    ];
    assert(seq_view(v@) =~= bitmap_columns());
    v
}

fn make_scan(alias: &String, table: &String) -> (r: Arc<LogicalPlan>)
    ensures
        (*r)@ == scan_of(alias@, table@),
{
    Arc::new(
        LogicalPlan::Scan(Scan { table_alias: alias.clone(), table_name: Some(table.clone()) }),
    )
}

fn make_union(a: Arc<LogicalPlan>, b: Arc<LogicalPlan>) -> (r: Arc<LogicalPlan>)
    ensures
        (*r)@ == (PlanV::Union { inputs: seq![(*a)@, (*b)@] }),
{
    let inputs = vec![a, b];
    assert(seq_view(inputs@) =~= seq![(*a)@, (*b)@]);
    Arc::new(LogicalPlan::Union(Union { inputs }))
}

fn make_cte(input: Arc<LogicalPlan>, name: &String) -> (r: Arc<LogicalPlan>)
    ensures
        (*r)@ == cte_over((*input)@, name@),
{
    Arc::new(LogicalPlan::Cte(Cte { input, name: name.clone() }))
}

fn make_node_update(n: &GraphNodeContext, insubquery: Option<PlanExpr>, is_rel: bool) -> (r:
    CtxToUpdate)
    ensures
        r@ == node_update(n@, opt_view(insubquery), is_rel),
{
    CtxToUpdate {
        alias: n.alias.clone(),
        label: n.label.clone(),
        projections: make_id_projection(&n.projections, &n.id_column),
        insubquery,
        override_projections: false,
        is_rel,
    }
}

impl GraphTRaversalPlanning {
    pub fn new() -> (r: Self)
        ensures
            r == GraphTRaversalPlanning,
    {
        GraphTRaversalPlanning
    }

    /// `sub_in_exp IN (SELECT sub_plan_column FROM sub_plan_table)`.
    pub fn build_insubquery(
        &self,
        sub_in_exp: String,
        sub_plan_table: String,
        sub_plan_column: String,
    ) -> (r: PlanExpr)
        ensures
            r@ == in_subquery(sub_in_exp@, sub_plan_table@, sub_plan_column@),
    {
        let inner = PlanExpr::Column(Column(sub_in_exp));
        assert(inner@ == ExprV::Column(sub_in_exp@));
        PlanExpr::InSubquery(
            InSubquery {
                expr: Box::new(inner),
                subplan: SubquerySubPlan { table_name: sub_plan_table, column: sub_plan_column },
            },
        )
    }

    /// The bare columns as projection items.
    pub fn build_projections(&self, items: Vec<(String, Option<ColumnAlias>)>) -> (r: Vec<
        ProjectionItem,
    >)
        ensures
            r@.len() == items@.len(),
            forall|i: int|
                0 <= i < items@.len() ==> (#[trigger] r@[i])@ == column_item(
                    items@[i].0@,
                    opt_view(items@[i].1),
                ),
    {
        let mut out: Vec<ProjectionItem> = Vec::new();
        let mut i: usize = 0;
        while i < items.len()
            invariant
                i <= items.len(),
                out@.len() == i,
                forall|j: int|
                    0 <= j < i ==> (#[trigger] out@[j])@ == column_item(
                        items@[j].0@,
                        opt_view(items@[j].1),
                    ),
            decreases items.len() - i,
        {
            let item = ProjectionItem {
                expression: PlanExpr::Column(Column(items[i].0.clone())),
                col_alias: match &items[i].1 {
                    Some(a) => Some(ColumnAlias(a.0.clone())),
                    None => None,
                },
            };
            out.push(item);
            i += 1;
        }
        out
    }

    fn node_ctx(&self, plan_ctx: &PlanCtx, graph_schema: &GraphSchema, alias: &String) -> (r: Result<
        GraphNodeContext,
        AnalyzerError,
    >)
        ensures
            crate::errors::res_view(r) == node_context(plan_ctx@, graph_schema@, alias@),
    {
        let table_ctx = match plan_ctx.get_node_table_ctx(alias.as_str()) {
            Ok(t) => t,
            Err(e) => {
                return Err(err_ctx(e));
            },
        };
        let label = match table_ctx.get_label_opt() {
            Some(l) => l,
            None => {
                return Err(err_ctx(PlanCtxError::MissingLabel { alias: alias.clone() }));
            },
        };
        let schema = match graph_schema.get_node_schema(label.as_str()) {
            Ok(s) => s,
            Err(e) => {
                return Err(err_schema(e));
            },
        };
        Ok(
            GraphNodeContext {
                alias: alias.clone(),
                cte_name: join_underscore(label.as_str(), alias.as_str()),
                label,
                table_name: schema.table_name.clone(),
                id_column: schema.node_id.column.clone(),
                projections: clone_items(table_ctx.get_projections()),
            },
        )
    }

    fn rel_ctx(&self, plan_ctx: &PlanCtx, graph_schema: &GraphSchema, alias: &String) -> (r: Result<
        GraphRelContext,
        AnalyzerError,
    >)
        ensures
            crate::errors::res_view(r) == rel_context(plan_ctx@, graph_schema@, alias@),
    {
        let table_ctx = match plan_ctx.get_rel_table_ctx(alias.as_str()) {
            Ok(t) => t,
            Err(e) => {
                return Err(err_ctx(e));
            },
        };
        let label = match table_ctx.get_label_opt() {
            Some(l) => l,
            None => {
                return Err(err_ctx(PlanCtxError::MissingLabel { alias: alias.clone() }));
            },
        };
        let schema = match graph_schema.get_rel_schema(label.as_str()) {
            Ok(s) => s,
            Err(e) => {
                return Err(err_schema(e));
            },
        };
        Ok(
            GraphRelContext {
                alias: alias.clone(),
                label,
                from_node: schema.from_node.clone(),
                to_node: schema.to_node.clone(),
                star_found: star_found(table_ctx.get_projections()),
                use_edge_list: table_ctx.should_use_edge_list(),
            },
        )
    }

    /// What planning knows of the pattern of a relationship.
    pub fn get_graph_context(
        &self,
        graph_rel: &GraphRel,
        plan_ctx: &PlanCtx,
        graph_schema: &GraphSchema,
    ) -> (r: Result<GraphContext, AnalyzerError>)
        ensures
            crate::errors::res_view(r) == graph_context(
                plan_ctx@,
                graph_schema@,
                graph_rel.left_connection@,
                graph_rel.alias@,
                graph_rel.right_connection@,
            ),
    {
        match check_pattern(
            Pass::GraphTraversalPlanning,
            plan_ctx,
            graph_schema,
            &graph_rel.left_connection,
            &graph_rel.alias,
            &graph_rel.right_connection,
            false,
        ) {
            Ok(_) => {},
            Err(e) => {
                return Err(e);
            },
        }
        let left = match self.node_ctx(plan_ctx, graph_schema, &graph_rel.left_connection) {
            Ok(n) => n,
            Err(e) => {
                return Err(e);
            },
        };
        let rel = match self.rel_ctx(plan_ctx, graph_schema, &graph_rel.alias) {
            Ok(r) => r,
            Err(e) => {
                return Err(e);
            },
        };
        let right = match self.node_ctx(plan_ctx, graph_schema, &graph_rel.right_connection) {
            Ok(n) => n,
            Err(e) => {
                return Err(e);
            },
        };
        Ok(GraphContext { left, rel, right })
    }

    /// The relationship CTE of an edge-list read.
    pub fn get_rel_ctx_for_edge_list(
        &self,
        graph_rel: &GraphRel,
        graph_context: &GraphContext,
        connected_node_cte_name: String,
        connected_node_id_column: String,
        is_rel_anchor: bool,
        outgoing_alias: &String,
        incoming_alias: &String,
    ) -> (r: (String, Arc<LogicalPlan>, Vec<CtxToUpdate>))
        ensures
            (r.0@, (*r.1)@, seq_view(r.2@)) == edge_list_rel(
                graph_context@,
                graph_rel.direction,
                (*graph_rel.center)@,
                connected_node_cte_name@,
                connected_node_id_column@,
                is_rel_anchor,
                outgoing_alias@,
                incoming_alias@,
            ),
    {
        let g = graph_context;
        let name = join_underscore(g.rel.label.as_str(), g.rel.alias.as_str());
        if graph_rel.direction == Direction::Either && g.left.label == g.right.label
            && !is_rel_anchor {
            let plan = make_union(
                make_scan(outgoing_alias, &g.rel.label),
                make_scan(incoming_alias, &g.rel.label),
            );
            let sub_out = self.build_insubquery(
                String::from_str("from_id"),
                connected_node_cte_name.clone(),
                connected_node_id_column.clone(),
            );
            let sub_in = self.build_insubquery(
                String::from_str("from_id"),
                connected_node_cte_name,
                connected_node_id_column,
            );
            let updates = vec![
                CtxToUpdate {
                    alias: outgoing_alias.clone(),
                    label: g.rel.label.clone(),
                    projections: make_edge_columns(g, false),
                    insubquery: Some(sub_out),
                    override_projections: false,
                    is_rel: true,
                },
                CtxToUpdate {
                    alias: incoming_alias.clone(),
                    label: g.rel.label.clone(),
                    projections: make_edge_columns(g, true),
                    insubquery: Some(sub_in),
                    override_projections: false,
                    is_rel: true,
                },
            ];
            proof {
                let spec = edge_list_rel(
                    graph_context@,
                    graph_rel.direction,
                    (*graph_rel.center)@,
                    connected_node_cte_name@,
                    connected_node_id_column@,
                    is_rel_anchor,
                    outgoing_alias@,
                    incoming_alias@,
                );
                assert(seq_view(updates@) =~= spec.2);
            }
            (name, plan, updates)
        } else {
            let sub_in = if graph_rel.direction == Direction::Outgoing {
                String::from_str("from_id")
            } else {
                String::from_str("to_id")
            };
            let sub = self.build_insubquery(
                sub_in,
                connected_node_cte_name,
                connected_node_id_column,
            );
            let updates = vec![
                CtxToUpdate {
                    alias: g.rel.alias.clone(),
                    label: g.rel.label.clone(),
                    projections: make_edge_columns(g, false),
                    insubquery: Some(sub),
                    override_projections: false,
                    is_rel: true,
                },
            ];
            proof {
                let spec = edge_list_rel(
                    graph_context@,
                    graph_rel.direction,
                    (*graph_rel.center)@,
                    connected_node_cte_name@,
                    connected_node_id_column@,
                    is_rel_anchor,
                    outgoing_alias@,
                    incoming_alias@,
                );
                assert(seq_view(updates@) =~= spec.2);
            }
            (name, graph_rel.center.clone(), updates)
        }
    }

    /// The relationship CTE of a bitmap-index read.
    pub fn get_rel_ctx_for_bitmaps(
        &self,
        graph_rel: &GraphRel,
        graph_context: &GraphContext,
        connected_node_cte_name: String,
        connected_node_id_column: String,
        outgoing_alias: &String,
        incoming_alias: &String,
    ) -> (r: (String, Arc<LogicalPlan>, Vec<CtxToUpdate>))
        ensures
            (r.0@, (*r.1)@, seq_view(r.2@)) == bitmap_rel(
                graph_context@,
                graph_rel.direction,
                (*graph_rel.center)@,
                connected_node_cte_name@,
                connected_node_id_column@,
                outgoing_alias@,
                incoming_alias@,
            ),
    {
        let g = graph_context;
        if graph_rel.direction == Direction::Either && g.left.label == g.right.label {
            let label = join_underscore(g.rel.label.as_str(), Direction::Either.as_str());
            let outgoing_label = join_underscore(
                g.rel.label.as_str(),
                Direction::Outgoing.as_str(),
            );
            let incoming_label = join_underscore(
                g.rel.label.as_str(),
                Direction::Incoming.as_str(),
            );
            let name = join_underscore(label.as_str(), g.rel.alias.as_str());
            let plan = make_union(
                make_scan(outgoing_alias, &outgoing_label),
                make_scan(incoming_alias, &incoming_label),
            );
            let sub_out = self.build_insubquery(
                String::from_str("from_id"),
                connected_node_cte_name.clone(),
                connected_node_id_column.clone(),
            );
            let sub_in = self.build_insubquery(
                String::from_str("from_id"),
                connected_node_cte_name,
                connected_node_id_column,
            );
            let empty: Vec<ProjectionItem> = Vec::new();
            assert(seq_view(empty@) =~= Seq::empty());
            let updates = vec![
                CtxToUpdate {
                    alias: g.rel.alias.clone(),
                    label,
                    projections: empty,
                    insubquery: None,
                    override_projections: false,
                    is_rel: true,
                },
                CtxToUpdate {
                    alias: outgoing_alias.clone(),
                    label: outgoing_label,
                    projections: make_bitmap_columns(),
                    insubquery: Some(sub_out),
                    override_projections: false,
                    is_rel: true,
                },
                CtxToUpdate {
                    alias: incoming_alias.clone(),
                    label: incoming_label,
                    projections: make_bitmap_columns(),
                    insubquery: Some(sub_in),
                    override_projections: false,
                    is_rel: true,
                },
            ];
            proof {
                let spec = bitmap_rel(
                    graph_context@,
                    graph_rel.direction,
                    (*graph_rel.center)@,
                    connected_node_cte_name@,
                    connected_node_id_column@,
                    outgoing_alias@,
                    incoming_alias@,
                );
                assert(seq_view(updates@) =~= spec.2);
            }
            (name, plan, updates)
        } else {
            let dir = if g.left.label == g.right.label {
                graph_rel.direction
            } else if g.rel.from_node == g.right.table_name {
                Direction::Outgoing
            } else {
                Direction::Incoming
            };
            let label = join_underscore(g.rel.label.as_str(), dir.as_str());
            let name = join_underscore(label.as_str(), g.rel.alias.as_str());
            let sub = self.build_insubquery(
                String::from_str("from_id"),
                connected_node_cte_name,
                connected_node_id_column,
            );
            let updates = vec![
                CtxToUpdate {
                    alias: g.rel.alias.clone(),
                    label,
                    projections: make_bitmap_columns(),
                    insubquery: Some(sub),
                    override_projections: false,
                    is_rel: true,
                },
            ];
            proof {
                let spec = bitmap_rel(
                    graph_context@,
                    graph_rel.direction,
                    (*graph_rel.center)@,
                    connected_node_cte_name@,
                    connected_node_id_column@,
                    outgoing_alias@,
                    incoming_alias@,
                );
                assert(seq_view(updates@) =~= spec.2);
            }
            (name, graph_rel.center.clone(), updates)
        }
    }
}

/// `true` for a lower-case hexadecimal digit.
pub open spec fn is_lower_hex(c: char) -> bool {
    ('0' <= c && c <= '9') || ('a' <= c && c <= 'f')
}

/// `true` for an alias as the planner makes them up: the letter `a`
/// followed by ten lower-case hexadecimal digits.
pub open spec fn is_generated_alias(s: Text) -> bool {
    &&& s.len() == 11
    &&& s[0] == 'a'
    &&& forall|i: int| 1 <= i < 11 ==> is_lower_hex(#[trigger] s[i])
}

/// A random identifier in simple form. Calls `uuid::Uuid::new_v4` for a
/// version 4 identifier and writes it with `Uuid::simple`, which gives 32
/// lower-case hexadecimal digits; the contract claims that length and
/// those digits, and nothing of their values. `new_v4` panics where the
/// operating system hands out no random bytes: nothing here rules that
/// out.
#[verifier::external_body]
fn random_hex() -> (s: String)
    ensures
        s@.len() == 32,
        forall|i: int| 0 <= i < 32 ==> is_lower_hex(#[trigger] s@[i]),
{
    uuid::Uuid::new_v4().simple().to_string()
}

/// The alias made of the letter `a` and the first ten characters of `hex`.
pub fn alias_from_hex(hex: &str) -> (alias: String)
    requires
        hex@.len() >= 10,
    ensures
        alias@ == "a"@ + hex@.subrange(0, 10),
{
    let head = hex.substring_char(0, 10);
    concat("a", head)
}

/// A fresh alias for an anonymous node or relationship.
pub fn generate_id() -> (alias: String)
    ensures
        is_generated_alias(alias@),
{
    let hex = random_hex();
    let alias = alias_from_hex(hex.as_str());
    proof {
        reveal_strlit("a");
        assert("a"@.len() == 1);
        assert(alias@[0] == 'a');
        assert forall|i: int| 1 <= i < 11 implies is_lower_hex(#[trigger] alias@[i]) by {
            assert(alias@[i] == hex@.subrange(0, 10)[i - 1]);
            assert(hex@.subrange(0, 10)[i - 1] == hex@[i - 1]);
        }
    }
    alias
}

/// The number of relationships that planning works on: a relationship, and
/// the relationships down its right child.
pub open spec fn traversal_rels(p: PlanV) -> nat
    decreases p,
{
    match p {
        PlanV::Empty => 0,
        PlanV::Scan { .. } => 0,
        PlanV::GraphRel { right, .. } => 1 + (if *right is GraphRel {
            traversal_rels(*right)
        } else {
            0
        }),
        PlanV::Union { inputs } => traversal_rels_all(inputs),
        _ => traversal_rels(p.input()),
    }
}

pub open spec fn traversal_rels_all(s: Seq<PlanV>) -> nat
    decreases s,
{
    if s.len() == 0 {
        0
    } else {
        traversal_rels_all(s.drop_last()) + traversal_rels(s.last())
    }
}

/// The relationship node with another right child.
pub open spec fn with_right(p: PlanV, new_right: PlanV) -> PlanV
    recommends
        p is GraphRel,
{
    match p {
        PlanV::GraphRel { left, center, right, .. } => p.with_children(*left, *center, new_right),
        other => other,
    }
}

/// What the pass makes of a plan and a context, given the fresh aliases
/// `ids`, of which each relationship takes two, starting at `next`.
///
/// The relationships down the right child of a relationship are planned
/// before it; the deepest is the first of the traversal. The left and
/// center children of a relationship are not visited.
pub open spec fn plan_traversal(
    p: PlanV,
    ctx: PlanCtxV,
    schema: GraphSchemaV,
    ids: Seq<Text>,
    next: int,
) -> Result<(Transformed<PlanV>, PlanCtxV), AnalyzerErrorV>
    decreases p,
{
    match p {
        PlanV::Empty => Ok((Transformed::No(p), ctx)),
        PlanV::Scan { .. } => Ok((Transformed::No(p), ctx)),
        PlanV::GraphRel { right, .. } => if !(*right is GraphRel) {
            match infer_traversal(p, ctx, schema, true, ids[next], ids[next + 1]) {
                Err(e) => Err(e),
                Ok((np, us)) => Ok((Transformed::Yes(np), apply_updates(ctx, us))),
            }
        } else {
            match plan_traversal(*right, ctx, schema, ids, next) {
                Err(e) => Err(e),
                Ok((right_tf, c1)) => {
                    let n1 = next + 2 * traversal_rels(*right);
                    match infer_traversal(
                        with_right(p, right_tf.plan()),
                        c1,
                        schema,
                        false,
                        ids[n1],
                        ids[n1 + 1],
                    ) {
                        Err(e) => Err(e),
                        Ok((np, us)) => Ok((Transformed::Yes(np), apply_updates(c1, us))),
                    }
                },
            }
        },
        PlanV::Union { inputs } => match plan_traversal_all(inputs, ctx, schema, ids, next) {
            Err(e) => Err(e),
            Ok((tfs, c)) => Ok((rebuild_union(p, tfs), c)),
        },
        _ => match plan_traversal(p.input(), ctx, schema, ids, next) {
            Err(e) => Err(e),
            Ok((tf, c)) => Ok((rebuild(p, tf), c)),
        },
    }
}

pub open spec fn plan_traversal_all(
    s: Seq<PlanV>,
    ctx: PlanCtxV,
    schema: GraphSchemaV,
    ids: Seq<Text>,
    next: int,
) -> Result<(Seq<Transformed<PlanV>>, PlanCtxV), AnalyzerErrorV>
    decreases s,
{
    if s.len() == 0 {
        Ok((Seq::empty(), ctx))
    } else {
        match plan_traversal_all(s.drop_last(), ctx, schema, ids, next) {
            Err(e) => Err(e),
            Ok((tfs, c)) => match plan_traversal(
                s.last(),
                c,
                schema,
                ids,
                next + 2 * traversal_rels_all(s.drop_last()),
            ) {
                Err(e) => Err(e),
                Ok((tf, c2)) => Ok((tfs.push(tf), c2)),
            },
        }
    }
}

proof fn lemma_plan_traversal_all_err(
    s: Seq<PlanV>,
    ctx: PlanCtxV,
    schema: GraphSchemaV,
    ids: Seq<Text>,
    next: int,
    i: int,
)
    requires
        0 <= i < s.len(),
        plan_traversal_all(s.take(i + 1), ctx, schema, ids, next) is Err,
    ensures
        plan_traversal_all(s, ctx, schema, ids, next) is Err,
        plan_traversal_all(s, ctx, schema, ids, next)->Err_0 == plan_traversal_all(
            s.take(i + 1),
            ctx,
            schema,
            ids,
            next,
        )->Err_0,
    decreases s.len() - i,
{
    if i + 1 < s.len() {
        assert(s.take(i + 2).drop_last() =~= s.take(i + 1));
        lemma_plan_traversal_all_err(s, ctx, schema, ids, next, i + 1);
    } else {
        assert(s.take(i + 1) =~= s);
    }
}

/// The outcome of planning one relationship as contracts see it.
pub open spec fn inferred(r: Result<(GraphRel, Vec<CtxToUpdate>), AnalyzerError>) -> Result<
    (PlanV, Seq<CtxToUpdateV>),
    AnalyzerErrorV,
> {
    match r {
        Ok((rel, us)) => Ok((LogicalPlan::GraphRel(rel)@, seq_view(us@))),
        Err(e) => Err(e@),
    }
}

/// `true` when `outcome` is what the pass gives for the fresh aliases
/// `ids`: two of the generated form for every relationship of the plan.
pub open spec fn is_planning(
    p: PlanV,
    ctx: PlanCtxV,
    schema: GraphSchemaV,
    ids: Seq<Text>,
    outcome: Analysis,
) -> bool {
    &&& ids.len() == 2 * traversal_rels(p)
    &&& forall|i: int| 0 <= i < ids.len() ==> is_generated_alias(#[trigger] ids[i])
    &&& outcome == plan_traversal(p, ctx, schema, ids, 0)
}

/// `true` when `r` and `ctx_after` are what the pass gives for the fresh
/// aliases `ids`.
pub open spec fn is_outcome(
    p: PlanV,
    ctx: PlanCtxV,
    schema: GraphSchemaV,
    ids: Seq<Text>,
    r: Result<Transformed<Arc<LogicalPlan>>, AnalyzerError>,
    ctx_after: PlanCtxV,
) -> bool {
    is_planning(p, ctx, schema, ids, analyzed(r, ctx_after))
}

fn apply_ctx_update(plan_ctx: &mut PlanCtx, update: CtxToUpdate)
    ensures
        final(plan_ctx)@ == apply_update(old(plan_ctx)@, update@),
{
    let CtxToUpdate { alias, label, projections, insubquery, override_projections, is_rel } =
        update;
    let mut projections = projections;
    match plan_ctx.get_mut_table_ctx_opt(alias.as_str()) {
        Some(table_ctx) => {
            table_ctx.set_label(Some(label));
            match insubquery {
                Some(e) => {
                    table_ctx.insert_filter(e);
                },
                None => {},
            }
            if override_projections {
                table_ctx.set_projections(projections);
            } else {
                table_ctx.append_projection(&mut projections);
            }
        },
        None => {
            let mut table_ctx = TableCtx::build(Some(label), Vec::new(), is_rel, false);
            match insubquery {
                Some(e) => {
                    table_ctx.insert_filter(e);
                    assert(table_ctx@.filter_predicates =~= seq![e@]);
                },
                None => {},
            }
            table_ctx.set_projections(projections);
            assert(table_ctx@.properties =~= Seq::empty());
            plan_ctx.insert_table_ctx(alias, table_ctx);
        },
    }
}

fn apply_ctx_updates(plan_ctx: &mut PlanCtx, updates: Vec<CtxToUpdate>)
    ensures
        final(plan_ctx)@ == apply_updates(old(plan_ctx)@, seq_view(updates@)),
{
    let mut updates = updates;
    let ghost all = seq_view(updates@);
    let mut rev: Vec<CtxToUpdate> = Vec::new();
    while updates.len() > 0
        invariant
            seq_view(updates@) + seq_view(rev@).reverse() == all,
        decreases updates.len(),
    {
        let ghost before = updates@;
        let ghost rev_before = rev@;
        let u = updates.pop().unwrap();
        rev.push(u);
        assert(seq_view(updates@) + seq_view(rev@).reverse() =~= seq_view(before) + seq_view(
            rev_before,
        ).reverse());
    }
    assert(seq_view(rev@).reverse() =~= all);
    assert(all.take(0) =~= Seq::empty());
    while rev.len() > 0
        invariant
            rev.len() <= all.len(),
            seq_view(rev@).reverse() == all.skip(all.len() - rev.len()),
            plan_ctx@ == apply_updates(old(plan_ctx)@, all.take(all.len() - rev.len())),
        decreases rev.len(),
    {
        let ghost k = all.len() - rev.len();
        let ghost rb = rev@;
        let u = rev.pop().unwrap();
        proof {
            assert(seq_view(rb).reverse()[0] == all.skip(k)[0]);
            assert(u@ == all[k]);
            assert(all.take(k + 1).drop_last() =~= all.take(k));
            assert(seq_view(rev@).reverse() =~= seq_view(rb).reverse().skip(1));
            assert(all.skip(k).skip(1) =~= all.skip(k + 1));
        }
        apply_ctx_update(plan_ctx, u);
    }
    assert(all.take(all.len() as int) =~= all);
}

impl GraphTRaversalPlanning {
    /// The planning of a relationship that is read from its edge list.
    pub fn handle_edge_list_traversal(
        &self,
        graph_rel: &GraphRel,
        graph_context: GraphContext,
        is_anchor_traversal: bool,
        outgoing_alias: &String,
        incoming_alias: &String,
    ) -> (r: (GraphRel, Vec<CtxToUpdate>))
        requires
            graph_context@.rel.use_edge_list,
        ensures
            (LogicalPlan::GraphRel(r.0)@, seq_view(r.1@)) == traversal(
                LogicalPlan::GraphRel(*graph_rel)@,
                graph_context@,
                is_anchor_traversal,
                outgoing_alias@,
                incoming_alias@,
            ),
    {
        let g = &graph_context;
        let from_right = g.rel.from_node == g.right.table_name;
        let (rel_name, rel_plan, rel_updates) = if from_right {
            self.get_rel_ctx_for_edge_list(
                graph_rel,
                g,
                g.right.cte_name.clone(),
                g.right.id_column.clone(),
                graph_rel.is_rel_anchor,
                outgoing_alias,
                incoming_alias,
            )
        } else {
            self.get_rel_ctx_for_edge_list(
                graph_rel,
                g,
                g.left.cte_name.clone(),
                g.left.id_column.clone(),
                graph_rel.is_rel_anchor,
                outgoing_alias,
                incoming_alias,
            )
        };
        let right_sub = self.build_insubquery(
            g.right.id_column.clone(),
            rel_name.clone(),
            if from_right {
                String::from_str("from_id")
            } else {
                String::from_str("to_id")
            },
        );
        let left_sub = self.build_insubquery(
            g.left.id_column.clone(),
            rel_name.clone(),
            if from_right {
                String::from_str("to_id")
            } else {
                String::from_str("from_id")
            },
        );
        let ghost spec = traversal(
            LogicalPlan::GraphRel(*graph_rel)@,
            graph_context@,
            is_anchor_traversal,
            outgoing_alias@,
            incoming_alias@,
        );
        let left_cte = make_cte(graph_rel.left.clone(), &g.left.cte_name);
        if graph_rel.is_rel_anchor {
            let mut rel_updates = rel_updates;
            let ghost before = seq_view(rel_updates@);
            assert(before.len() == 1);
            let mut rel_update = rel_updates.pop().unwrap();
            assert(rel_update@ == before[0]);
            rel_update.insubquery = None;
            let updates = vec![
                make_node_update(&g.right, Some(right_sub), true),
                rel_update,
                make_node_update(&g.left, Some(left_sub), false),
            ];
            assert(seq_view(updates@) =~= spec.1);
            let center = make_cte(graph_rel.center.clone(), &g.right.cte_name);
            let right = make_cte(graph_rel.right.clone(), &rel_name);
            let new_rel = GraphRel {
                left: left_cte,
                center,
                right,
                alias: graph_rel.alias.clone(),
                direction: graph_rel.direction,
                left_connection: graph_rel.left_connection.clone(),
                right_connection: graph_rel.right_connection.clone(),
                is_rel_anchor: graph_rel.is_rel_anchor,
            };
            (new_rel, updates)
        } else if is_anchor_traversal {
            let mut updates = rel_updates;
            let ghost before = seq_view(updates@);
            let lu = make_node_update(&g.left, Some(left_sub), false);
            let ru = make_node_update(&g.right, None, false);
            updates.push(lu);
            updates.push(ru);
            assert(seq_view(updates@) =~= before + seq![lu@, ru@]);
            let center = make_cte(rel_plan, &rel_name);
            let right = make_cte(graph_rel.right.clone(), &g.right.cte_name);
            let new_rel = GraphRel {
                left: left_cte,
                center,
                right,
                alias: graph_rel.alias.clone(),
                direction: graph_rel.direction,
                left_connection: graph_rel.left_connection.clone(),
                right_connection: graph_rel.right_connection.clone(),
                is_rel_anchor: graph_rel.is_rel_anchor,
            };
            (new_rel, updates)
        } else {
            let mut updates = rel_updates;
            let ghost before = seq_view(updates@);
            let lu = make_node_update(&g.left, Some(left_sub), false);
            updates.push(lu);
            assert(seq_view(updates@) =~= before + seq![lu@]);
            let center = make_cte(rel_plan, &rel_name);
            let new_rel = GraphRel {
                left: left_cte,
                center,
                right: graph_rel.right.clone(),
                alias: graph_rel.alias.clone(),
                direction: graph_rel.direction,
                left_connection: graph_rel.left_connection.clone(),
                right_connection: graph_rel.right_connection.clone(),
                is_rel_anchor: graph_rel.is_rel_anchor,
            };
            (new_rel, updates)
        }
    }

    /// The planning of a relationship that is read from its bitmap index.
    pub fn handle_bitmap_traversal(
        &self,
        graph_rel: &GraphRel,
        graph_context: GraphContext,
        is_anchor_traversal: bool,
        outgoing_alias: &String,
        incoming_alias: &String,
    ) -> (r: (GraphRel, Vec<CtxToUpdate>))
        requires
            !graph_context@.rel.use_edge_list,
        ensures
            (LogicalPlan::GraphRel(r.0)@, seq_view(r.1@)) == traversal(
                LogicalPlan::GraphRel(*graph_rel)@,
                graph_context@,
                is_anchor_traversal,
                outgoing_alias@,
                incoming_alias@,
            ),
    {
        let g = &graph_context;
        let (rel_name, rel_plan, rel_updates) = self.get_rel_ctx_for_bitmaps(
            graph_rel,
            g,
            g.right.cte_name.clone(),
            g.right.id_column.clone(),
            outgoing_alias,
            incoming_alias,
        );
        let left_sub = self.build_insubquery(
            g.left.id_column.clone(),
            rel_name.clone(),
            String::from_str("to_id"),
        );
        let left_cte = make_cte(graph_rel.left.clone(), &g.left.cte_name);
        let center = make_cte(rel_plan, &rel_name);
        let mut updates = rel_updates;
        let ghost before = seq_view(updates@);
        let lu = make_node_update(&g.left, Some(left_sub), false);
        updates.push(lu);
        assert(seq_view(updates@) =~= before + seq![lu@]);
        if is_anchor_traversal {
            let ru = make_node_update(&g.right, None, false);
            updates.push(ru);
            assert(seq_view(updates@) =~= before + seq![lu@, ru@]);
            let right = make_cte(graph_rel.right.clone(), &g.right.cte_name);
            let new_rel = GraphRel {
                left: left_cte,
                center,
                right,
                alias: graph_rel.alias.clone(),
                direction: graph_rel.direction,
                left_connection: graph_rel.left_connection.clone(),
                right_connection: graph_rel.right_connection.clone(),
                is_rel_anchor: graph_rel.is_rel_anchor,
            };
            (new_rel, updates)
        } else {
            let new_rel = GraphRel {
                left: left_cte,
                center,
                right: graph_rel.right.clone(),
                alias: graph_rel.alias.clone(),
                direction: graph_rel.direction,
                left_connection: graph_rel.left_connection.clone(),
                right_connection: graph_rel.right_connection.clone(),
                is_rel_anchor: graph_rel.is_rel_anchor,
            };
            (new_rel, updates)
        }
    }

    /// The planning of one relationship, given the two fresh aliases that
    /// an either-direction read takes.
    pub fn infer_traversal(
        &self,
        graph_rel: &GraphRel,
        plan_ctx: &PlanCtx,
        graph_schema: &GraphSchema,
        is_anchor_traversal: bool,
        outgoing_alias: &String,
        incoming_alias: &String,
    ) -> (r: Result<(GraphRel, Vec<CtxToUpdate>), AnalyzerError>)
        ensures
            inferred(r) == infer_traversal(
                LogicalPlan::GraphRel(*graph_rel)@,
                plan_ctx@,
                graph_schema@,
                is_anchor_traversal,
                outgoing_alias@,
                incoming_alias@,
            ),
    {
        let graph_context = match self.get_graph_context(graph_rel, plan_ctx, graph_schema) {
            Ok(g) => g,
            Err(e) => {
                return Err(e);
            },
        };
        if graph_context.rel.use_edge_list {
            Ok(
                self.handle_edge_list_traversal(
                    graph_rel,
                    graph_context,
                    is_anchor_traversal,
                    outgoing_alias,
                    incoming_alias,
                ),
            )
        } else {
            Ok(
                self.handle_bitmap_traversal(
                    graph_rel,
                    graph_context,
                    is_anchor_traversal,
                    outgoing_alias,
                    incoming_alias,
                ),
            )
        }
    }
}

fn is_graph_rel(plan: &Arc<LogicalPlan>) -> (r: bool)
    ensures
        r == (plan@ is GraphRel),
{
    match &**plan {
        LogicalPlan::GraphRel(_) => true,
        _ => false,
    }
}

/// Draws two fresh aliases for every relationship that planning works on.
fn draw_ids(plan: &Arc<LogicalPlan>, ids: &mut Vec<String>)
    ensures
        final(ids)@.len() == old(ids)@.len() + 2 * traversal_rels(plan@),
        forall|i: int| 0 <= i < old(ids)@.len() ==> final(ids)@[i] == old(ids)@[i],
        forall|i: int|
            old(ids)@.len() <= i < final(ids)@.len() ==> is_generated_alias(
                #[trigger] final(ids)@[i]@,
            ),
    decreases plan,
{
    match &**plan {
        LogicalPlan::Empty => {},
        LogicalPlan::Scan(_) => {},
        LogicalPlan::GraphRel(rel) => {
            if is_graph_rel(&rel.right) {
                draw_ids(&rel.right, ids);
            }
            ids.push(generate_id());
            ids.push(generate_id());
        },
        LogicalPlan::Union(_) => {
            let n = union_len(plan);
            let mut i: usize = 0;
            let ghost inputs = plan@->inputs;
            assert(inputs.take(0) =~= Seq::empty());
            while i < n
                invariant
                    i <= n,
                    plan@ is Union,
                    inputs == plan@->inputs,
                    n == inputs.len(),
                    ids@.len() == old(ids)@.len() + 2 * traversal_rels_all(inputs.take(i as int)),
                    forall|k: int| 0 <= k < old(ids)@.len() ==> ids@[k] == old(ids)@[k],
                    forall|k: int|
                        old(ids)@.len() <= k < ids@.len() ==> is_generated_alias(
                            #[trigger] ids@[k]@,
                        ),
                decreases n - i,
            {
                let child = union_input(plan, i);
                proof {
                    assert(inputs.take(i + 1).drop_last() =~= inputs.take(i as int));
                }
                draw_ids(&child, ids);
                i += 1;
            }
            assert(inputs.take(n as int) =~= inputs);
        },
        _ => {
            let child = single_input(plan).unwrap();
            draw_ids(&child, ids);
        },
    }
}

impl GraphTRaversalPlanning {
    /// Runs the pass with the fresh aliases `ids`, of which each
    /// relationship takes two, starting at `next`. Returns the outcome and
    /// the position of the first alias that was not taken.
    pub fn plan_with_ids(
        &self,
        plan: &Arc<LogicalPlan>,
        plan_ctx: &mut PlanCtx,
        graph_schema: &GraphSchema,
        ids: &Vec<String>,
        next: usize,
    ) -> (r: Result<(Transformed<Arc<LogicalPlan>>, usize), AnalyzerError>)
        requires
            next + 2 * traversal_rels(plan@) <= ids@.len(),
        ensures
            match r {
                Ok((tf, n)) => plan_traversal(
                    plan@,
                    old(plan_ctx)@,
                    graph_schema@,
                    seq_view(ids@),
                    next as int,
                ) == Ok::<(Transformed<PlanV>, PlanCtxV), AnalyzerErrorV>(
                    (tf_view(tf), final(plan_ctx)@),
                ) && n == next + 2 * traversal_rels(plan@) && (tf is No ==> tf.plan() == *plan),
                Err(e) => plan_traversal(
                    plan@,
                    old(plan_ctx)@,
                    graph_schema@,
                    seq_view(ids@),
                    next as int,
                ) == Err::<(Transformed<PlanV>, PlanCtxV), AnalyzerErrorV>(e@),
            },
        decreases plan,
    {
        let total = ids.len();
        match &**plan {
            LogicalPlan::Empty => Ok((Transformed::No(plan.clone()), next)),
            LogicalPlan::Scan(_) => Ok((Transformed::No(plan.clone()), next)),
            LogicalPlan::GraphRel(rel) => {
                assert(traversal_rels(plan@) == 1 + (if rel.right@ is GraphRel {
                    traversal_rels(rel.right@)
                } else {
                    0
                }));
                if !is_graph_rel(&rel.right) {
                    let outcome = self.infer_traversal(
                        rel,
                        plan_ctx,
                        graph_schema,
                        true,
                        &ids[next],
                        &ids[next + 1],
                    );
                    match outcome {
                        Err(e) => Err(e),
                        Ok((new_rel, updates)) => {
                            apply_ctx_updates(plan_ctx, updates);
                            Ok(
                                (
                                    Transformed::Yes(Arc::new(LogicalPlan::GraphRel(new_rel))),
                                    next + 2,
                                ),
                            )
                        },
                    }
                } else {
                    let (right_tf, n1) = match self.plan_with_ids(
                        &rel.right,
                        plan_ctx,
                        graph_schema,
                        ids,
                        next,
                    ) {
                        Ok(x) => x,
                        Err(e) => {
                            return Err(e);
                        },
                    };
                    let updated = GraphRel {
                        left: rel.left.clone(),
                        center: rel.center.clone(),
                        right: right_tf.get_plan(),
                        alias: rel.alias.clone(),
                        direction: rel.direction,
                        left_connection: rel.left_connection.clone(),
                        right_connection: rel.right_connection.clone(),
                        is_rel_anchor: rel.is_rel_anchor,
                    };
                    assert(LogicalPlan::GraphRel(updated)@ == with_right(
                        plan@,
                        tf_view(right_tf).plan(),
                    ));
                    let outcome = self.infer_traversal(
                        &updated,
                        plan_ctx,
                        graph_schema,
                        false,
                        &ids[n1],
                        &ids[n1 + 1],
                    );
                    match outcome {
                        Err(e) => Err(e),
                        Ok((new_rel, updates)) => {
                            apply_ctx_updates(plan_ctx, updates);
                            Ok(
                                (
                                    Transformed::Yes(Arc::new(LogicalPlan::GraphRel(new_rel))),
                                    n1 + 2,
                                ),
                            )
                        },
                    }
                }
            },
            LogicalPlan::Union(_) => {
                let n = union_len(plan);
                let mut tfs: Vec<Transformed<Arc<LogicalPlan>>> = Vec::new();
                let mut i: usize = 0;
                let mut pos: usize = next;
                let ghost inputs = plan@->inputs;
                let ghost idv = seq_view(ids@);
                assert(inputs.take(0) =~= Seq::empty());
                assert(tfs_view(tfs@) =~= Seq::empty());
                while i < n
                    invariant
                        i <= n,
                        plan@ is Union,
                        inputs == plan@->inputs,
                        n == inputs.len(),
                        idv == seq_view(ids@),
                        pos == next + 2 * traversal_rels_all(inputs.take(i as int)),
                        next + 2 * traversal_rels_all(inputs) <= ids@.len(),
                        plan_traversal_all(
                            inputs.take(i as int),
                            old(plan_ctx)@,
                            graph_schema@,
                            idv,
                            next as int,
                        ) == Ok::<(Seq<Transformed<PlanV>>, PlanCtxV), AnalyzerErrorV>(
                            (tfs_view(tfs@), plan_ctx@),
                        ),
                    decreases n - i,
                {
                    let child = union_input(plan, i);
                    proof {
                        assert(inputs.take(i + 1).drop_last() =~= inputs.take(i as int));
                        lemma_rels_prefix(inputs, i as int);
                    }
                    match self.plan_with_ids(&child, plan_ctx, graph_schema, ids, pos) {
                        Ok((tf, after)) => {
                            proof {
                                assert(tfs_view(tfs@.push(tf)) =~= tfs_view(tfs@).push(
                                    tf_view(tf),
                                ));
                            }
                            tfs.push(tf);
                            pos = after;
                        },
                        Err(e) => {
                            proof {
                                assert(plan_traversal_all(
                                    inputs.take(i + 1),
                                    old(plan_ctx)@,
                                    graph_schema@,
                                    idv,
                                    next as int,
                                ) == Err::<(Seq<Transformed<PlanV>>, PlanCtxV), AnalyzerErrorV>(
                                    e@,
                                ));
                                lemma_plan_traversal_all_err(
                                    inputs,
                                    old(plan_ctx)@,
                                    graph_schema@,
                                    idv,
                                    next as int,
                                    i as int,
                                );
                            }
                            return Err(e);
                        },
                    }
                    i += 1;
                }
                assert(inputs.take(n as int) =~= inputs);
                Ok((rebuild_union_node(plan, tfs), pos))
            },
            _ => {
                let child = single_input(plan).unwrap();
                match self.plan_with_ids(&child, plan_ctx, graph_schema, ids, next) {
                    Ok((tf, n)) => Ok((rebuild_single(plan, tf), n)),
                    Err(e) => Err(e),
                }
            },
        }
    }

}

impl AnalyzerPass for GraphTRaversalPlanning {
    open spec fn analysis(&self, plan: PlanV, ctx: PlanCtxV, outcome: Analysis) -> bool {
        outcome == untouched(plan, ctx)
    }

    open spec fn analysis_with_graph_schema(
        &self,
        plan: PlanV,
        ctx: PlanCtxV,
        schema: GraphSchemaV,
        outcome: Analysis,
    ) -> bool {
        exists|ids: Seq<Text>| #[trigger] is_planning(plan, ctx, schema, ids, outcome)
    }

    /// The pass reads the catalog: without one it leaves the plan and the
    /// context as they are.
    fn analyze(&self, logical_plan: Arc<LogicalPlan>, plan_ctx: &mut PlanCtx) -> (r: Result<
        Transformed<Arc<LogicalPlan>>,
        AnalyzerError,
    >) {
        Ok(Transformed::No(logical_plan))
    }

    /// Runs the pass on a plan. The aliases of the reads that an
    /// either-direction relationship adds are drawn at random: the outcome
    /// is what the pass gives for some aliases of the generated form.
    fn analyze_with_graph_schema(
        &self,
        logical_plan: Arc<LogicalPlan>,
        plan_ctx: &mut PlanCtx,
        graph_schema: &GraphSchema,
    ) -> (r: Result<Transformed<Arc<LogicalPlan>>, AnalyzerError>)
        ensures
            exists|ids: Seq<Text>| #[trigger]
                is_outcome(
                    logical_plan@,
                    old(plan_ctx)@,
                    graph_schema@,
                    ids,
                    r,
                    final(plan_ctx)@,
                ),
            r matches Ok(tf) ==> (tf is No ==> tf.plan() == logical_plan),
    {
        let mut ids: Vec<String> = Vec::new();
        draw_ids(&logical_plan, &mut ids);
        let outcome = self.plan_with_ids(&logical_plan, plan_ctx, graph_schema, &ids, 0);
        let r = match outcome {
            Ok((tf, _)) => Ok(tf),
            Err(e) => Err(e),
        };
        assert(is_outcome(
            logical_plan@,
            old(plan_ctx)@,
            graph_schema@,
            seq_view(ids@),
            r,
            plan_ctx@,
        ));
        r
    }
}

/// The relationships of a prefix of the plans and of the next plan are
/// among those of all the plans.
proof fn lemma_rels_prefix(s: Seq<PlanV>, i: int)
    requires
        0 <= i < s.len(),
    ensures
        traversal_rels_all(s.take(i)) + traversal_rels(s[i]) <= traversal_rels_all(s),
    decreases s.len() - i,
{
    assert(s.take(i + 1).drop_last() =~= s.take(i));
    if i + 1 < s.len() {
        lemma_rels_prefix(s, i + 1);
    } else {
        assert(s.take(i + 1) =~= s);
    }
}

} // verus!
