//! Schema inference: every node and relationship alias gets a label, from
//! the pattern itself or from what the catalog allows, and every scan then
//! names the table of its alias.
use vstd::prelude::*;
use std::sync::Arc;
use crate::analyzer::analyzer_pass::{untouched, Analysis, AnalyzerPass};
use crate::assoc::{entries_view};
use crate::errors::{AnalyzerError, AnalyzerErrorV, Pass, PlanCtxError, PlanCtxErrorV};
use crate::expr::{lemma_expr_view, ExprV, PlanExpr};
use crate::graph_schema::{
    GraphSchema, GraphSchemaV, NodeSchema, NodeSchemaV, RelSchemaV, RelationshipSchema,
};
use crate::logical_plan::{
    rebuild, rebuild_graph_rel, rebuild_rel, rebuild_single, rebuild_union, rebuild_union_node,
    single_input, tf_view, tfs_view, union_input, union_len, LogicalPlan, PlanV, ProjectionItem,
    ProjectionItemV, Scan,
};
use crate::plan_ctx::{PlanCtx, PlanCtxV, TableCtx, TableCtxV};
use crate::transformed::Transformed;
use crate::views::{opt_view, seq_view, Text};

verus! {

broadcast use lemma_expr_view;

pub struct SchemaInference;

/// The first column that the expression names, from left to right: the
/// column of an `alias.column` or a bare column.
pub open spec fn first_column(e: ExprV) -> Option<Text>
    decreases e,
{
    match e {
        ExprV::PropertyAccess(pa) => Some(pa.column),
        ExprV::Column(c) => Some(c),
        ExprV::OperatorApplication(op) => first_column_in(op.operands),
        ExprV::ScalarFnCall(f) => first_column_in(f.args),
        ExprV::AggregateFnCall(f) => first_column_in(f.args),
        _ => None,
    }
}

/// The first column that one of the expressions names.
pub open spec fn first_column_in(s: Seq<ExprV>) -> Option<Text>
    decreases s,
{
    if s.len() == 0 {
        None
    } else {
        match first_column_in(s.drop_last()) {
            Some(c) => Some(c),
            None => first_column(s.last()),
        }
    }
}

/// The first column that a filter names; only operator applications count.
pub open spec fn first_filter_column(filters: Seq<ExprV>) -> Option<Text>
    decreases filters.len(),
{
    if filters.len() == 0 {
        None
    } else {
        match first_filter_column(filters.drop_last()) {
            Some(c) => Some(c),
            None => if filters.last() is OperatorApplication {
                first_column(filters.last())
            } else {
                None
            },
        }
    }
}

/// The first column that a projection item names.
pub open spec fn first_item_column(items: Seq<ProjectionItemV>) -> Option<Text>
    decreases items.len(),
{
    if items.len() == 0 {
        None
    } else {
        match first_item_column(items.drop_last()) {
            Some(c) => Some(c),
            None => first_column(items.last().expression),
        }
    }
}

/// The node schemas that have the column.
pub open spec fn nodes_with_column(nodes: Seq<(Text, NodeSchemaV)>, column: Text) -> Seq<
    NodeSchemaV,
>
    decreases nodes.len(),
{
    if nodes.len() == 0 {
        Seq::empty()
    } else if nodes.last().1.column_names.contains(column) {
        nodes_with_column(nodes.drop_last(), column).push(nodes.last().1)
    } else {
        nodes_with_column(nodes.drop_last(), column)
    }
}

/// The table of the one node schema that has the first column named by the
/// filters of the alias or, where they name none, by its projections.
pub open spec fn table_from_columns(schema: GraphSchemaV, t: TableCtxV) -> Option<Text> {
    let column = match first_filter_column(t.filter_predicates) {
        Some(c) => Some(c),
        None => first_item_column(t.projection_items),
    };
    match column {
        Some(c) => {
            let found = nodes_with_column(schema.nodes, c);
            if c.len() > 0 && found.len() == 1 {
                Some(found[0].table_name)
            } else {
                None
            }
        },
        None => None,
    }
}

/// `true` when the relationship links the two node tables, in either order.
pub open spec fn links(rel: RelSchemaV, a: Text, b: Text) -> bool {
    (rel.from_node == a && rel.to_node == b) || (rel.from_node == b && rel.to_node == a)
}

/// `true` when the relationship starts or ends at the node table.
pub open spec fn touches(rel: RelSchemaV, a: Text) -> bool {
    rel.from_node == a || rel.to_node == a
}

/// The relationships that link the two node tables.
pub open spec fn rels_linking(rels: Seq<(Text, RelSchemaV)>, a: Text, b: Text) -> Seq<RelSchemaV>
    decreases rels.len(),
{
    if rels.len() == 0 {
        Seq::empty()
    } else if links(rels.last().1, a, b) {
        rels_linking(rels.drop_last(), a, b).push(rels.last().1)
    } else {
        rels_linking(rels.drop_last(), a, b)
    }
}

/// The relationships that start or end at the node table.
pub open spec fn rels_touching(rels: Seq<(Text, RelSchemaV)>, a: Text) -> Seq<RelSchemaV>
    decreases rels.len(),
{
    if rels.len() == 0 {
        Seq::empty()
    } else if touches(rels.last().1, a) {
        rels_touching(rels.drop_last(), a).push(rels.last().1)
    } else {
        rels_touching(rels.drop_last(), a)
    }
}

/// The aliases of a pattern `(left)-[rel]-(right)`.
#[derive(Debug, Clone, PartialEq)]
pub struct PatternAliases {
    pub left: String,
    pub rel: String,
    pub right: String,
}

pub ghost struct PatternAliasesV {
    pub left: Text,
    pub rel: Text,
    pub right: Text,
}

impl View for PatternAliases {
    type V = PatternAliasesV;

    open spec fn view(&self) -> PatternAliasesV {
        PatternAliasesV { left: self.left@, rel: self.rel@, right: self.right@ }
    }
}

/// The catalog holds no relationship of the label.
pub open spec fn no_rel_schema(rel_label: Text) -> AnalyzerErrorV {
    AnalyzerErrorV::NoRelationSchemaFound { pass: Pass::SchemaInference, rel_label }
}

/// The catalog holds no node of the label.
pub open spec fn no_node_schema(node_label: Text) -> AnalyzerErrorV {
    AnalyzerErrorV::NoNodeSchemaFound { pass: Pass::SchemaInference, node_label }
}

/// No relationship of the catalog fits the pattern.
pub open spec fn missing_rel_label(names: PatternAliasesV) -> AnalyzerErrorV {
    AnalyzerErrorV::MissingRelationLabel { pass: Pass::SchemaInference, alias: names.rel }
}

/// The labels of the pattern cannot be told.
pub open spec fn not_enough_labels(names: PatternAliasesV) -> AnalyzerErrorV {
    AnalyzerErrorV::NotEnoughLabels {
        pass: Pass::SchemaInference,
        left_alias: names.left,
        rel_alias: names.rel,
        right_alias: names.right,
    }
}

/// The end of the relationship that is not `known`.
pub open spec fn other_end(rel: RelSchemaV, known: Text) -> Text {
    if known == rel.from_node {
        rel.to_node
    } else {
        rel.from_node
    }
}

/// The table of the node at the end of the relationship that is not `known`.
pub open spec fn other_end_table(schema: GraphSchemaV, rel: RelSchemaV, known: Text) -> Result<
    Text,
    AnalyzerErrorV,
> {
    match schema.node(other_end(rel, known)) {
        Some(n) => Ok(n.table_name),
        None => Err(no_node_schema(other_end(rel, known))),
    }
}

/// The labels of a pattern `(left)-[rel]-(right)`, in that order.
///
/// - Labels that the pattern gives stand.
/// - A missing node beside a labelled relationship is the other end of it.
/// - A missing relationship between two labelled nodes is the one
///   relationship of the catalog that links them.
/// - Where both nodes are missing, a node is told from the first column
///   that its filters or projections name, if one node table has it;
///   the other is the other end of the relationship.
/// - Where a node and the relationship are missing, the relationship is
///   the one that touches the labelled node; several are told apart by
///   the table that the columns of the missing node give.
/// - Where all are missing, the nodes are told from their columns.
///
/// More than one candidate left is `NotEnoughLabels`. An error names what
/// it is about: the label that the catalog lacks, or the aliases of the
/// pattern, which `names` gives.
pub open spec fn infer_labels(
    schema: GraphSchemaV,
    left: TableCtxV,
    rel: TableCtxV,
    right: TableCtxV,
    names: PatternAliasesV,
) -> Result<(Text, Text, Text), AnalyzerErrorV> {
    match (left.label, rel.label, right.label) {
        (Some(l), Some(r), Some(t)) => Ok((l, r, t)),
        (None, Some(r), Some(t)) => match schema.relationship(r) {
            None => Err(no_rel_schema(r)),
            Some(rs) => Ok((other_end(rs, t), r, t)),
        },
        (Some(l), Some(r), None) => match schema.relationship(r) {
            None => Err(no_rel_schema(r)),
            Some(rs) => Ok((l, r, other_end(rs, l))),
        },
        (Some(l), None, Some(t)) => {
            let found = rels_linking(schema.relationships, l, t);
            if found.len() == 0 {
                Err(missing_rel_label(names))
            } else if found.len() == 1 {
                Ok((l, found[0].table_name, t))
            } else {
                Err(not_enough_labels(names))
            }
        },
        (None, Some(r), None) => match schema.relationship(r) {
            None => Err(no_rel_schema(r)),
            Some(rs) => match table_from_columns(schema, left) {
                Some(x) => match other_end_table(schema, rs, x) {
                    Ok(y) => Ok((x, r, y)),
                    Err(e) => Err(e),
                },
                None => match table_from_columns(schema, right) {
                    Some(y) => match other_end_table(schema, rs, y) {
                        Ok(x) => Ok((x, r, y)),
                        Err(e) => Err(e),
                    },
                    None => match (schema.node(rs.from_node), schema.node(rs.to_node)) {
                        (Some(f), Some(t)) => Ok((f.table_name, r, t.table_name)),
                        (None, _) => Err(no_node_schema(rs.from_node)),
                        (Some(_), None) => Err(no_node_schema(rs.to_node)),
                    },
                },
            },
        },
        (Some(l), None, None) => near_and_far(schema, l, right, names),
        (None, None, Some(t)) => match near_and_far(schema, t, left, names) {
            Ok((near, r, far)) => Ok((far, r, near)),
            Err(e) => Err(e),
        },
        (None, None, None) => match (
            table_from_columns(schema, left),
            table_from_columns(schema, right),
        ) {
            (Some(x), Some(y)) => {
                let found = rels_linking(schema.relationships, x, y);
                if found.len() == 1 {
                    Ok((x, found[0].table_name, y))
                } else {
                    Err(not_enough_labels(names))
                }
            },
            (Some(x), None) => {
                let found = rels_touching(schema.relationships, x);
                if found.len() == 1 {
                    match other_end_table(schema, found[0], x) {
                        Ok(y) => Ok((x, found[0].table_name, y)),
                        Err(e) => Err(e),
                    }
                } else {
                    Err(not_enough_labels(names))
                }
            },
            (None, Some(y)) => {
                let found = rels_touching(schema.relationships, y);
                if found.len() == 1 {
                    match other_end_table(schema, found[0], y) {
                        Ok(x) => Ok((x, found[0].table_name, y)),
                        Err(e) => Err(e),
                    }
                } else {
                    Err(not_enough_labels(names))
                }
            },
            (None, None) => Err(not_enough_labels(names)),
        },
    }
}

/// The labels `(near, rel, far)` where only the node `near` is labelled:
/// the relationship is the one that touches `near`; several are told
/// apart by the table that the columns of the far node give.
pub open spec fn near_and_far(
    schema: GraphSchemaV,
    near: Text,
    far_ctx: TableCtxV,
    names: PatternAliasesV,
) -> Result<
    (Text, Text, Text),
    AnalyzerErrorV,
> {
    let found = rels_touching(schema.relationships, near);
    if found.len() == 0 {
        Err(missing_rel_label(names))
    } else if found.len() == 1 {
        match other_end_table(schema, found[0], near) {
            Ok(far) => Ok((near, found[0].table_name, far)),
            Err(e) => Err(e),
        }
    } else {
        match table_from_columns(schema, far_ctx) {
            None => Err(not_enough_labels(names)),
            Some(far) => {
                let fit = rels_linking(schema.relationships, near, far);
                if fit.len() == 1 {
                    Ok((near, fit[0].table_name, far))
                } else {
                    Err(not_enough_labels(names))
                }
            },
        }
    }
}

proof fn lemma_first_column_in_found(s: Seq<ExprV>, i: int)
    requires
        0 <= i < s.len(),
        first_column_in(s.take(i + 1)) is Some,
    ensures
        first_column_in(s) == first_column_in(s.take(i + 1)),
    decreases s.len() - i,
{
    if i + 1 < s.len() {
        assert(s.take(i + 2).drop_last() =~= s.take(i + 1));
        lemma_first_column_in_found(s, i + 1);
    } else {
        assert(s.take(i + 1) =~= s);
    }
}

proof fn lemma_first_filter_column_found(s: Seq<ExprV>, i: int)
    requires
        0 <= i < s.len(),
        first_filter_column(s.take(i + 1)) is Some,
    ensures
        first_filter_column(s) == first_filter_column(s.take(i + 1)),
    decreases s.len() - i,
{
    if i + 1 < s.len() {
        assert(s.take(i + 2).drop_last() =~= s.take(i + 1));
        lemma_first_filter_column_found(s, i + 1);
    } else {
        assert(s.take(i + 1) =~= s);
    }
}

proof fn lemma_first_item_column_found(s: Seq<ProjectionItemV>, i: int)
    requires
        0 <= i < s.len(),
        first_item_column(s.take(i + 1)) is Some,
    ensures
        first_item_column(s) == first_item_column(s.take(i + 1)),
    decreases s.len() - i,
{
    if i + 1 < s.len() {
        assert(s.take(i + 2).drop_last() =~= s.take(i + 1));
        lemma_first_item_column_found(s, i + 1);
    } else {
        assert(s.take(i + 1) =~= s);
    }
}

fn column_in(v: &Vec<PlanExpr>) -> (r: Option<String>)
    ensures
        opt_view(r) == first_column_in(seq_view(v@)),
    decreases v,
{
    let mut i: usize = 0;
    let ghost s = seq_view(v@);
    assert(s.take(0) =~= Seq::empty());
    while i < v.len()
        invariant
            i <= v.len(),
            s == seq_view(v@),
            first_column_in(s.take(i as int)) is None,
        decreases v.len() - i,
    {
        proof {
            assert(s.take(i + 1).drop_last() =~= s.take(i as int));
            assert(s.take(i + 1).last() == v@[i as int]@);
        }
        match column_of(&v[i]) {
            Some(c) => {
                proof {
                    lemma_first_column_in_found(s, i as int);
                }
                return Some(c);
            },
            None => {},
        }
        i += 1;
    }
    assert(s.take(v.len() as int) =~= s);
    None
}

fn column_of(expr: &PlanExpr) -> (r: Option<String>)
    ensures
        opt_view(r) == first_column(expr@),
    decreases expr,
{
    match expr {
        PlanExpr::PropertyAccessExp(pa) => Some(pa.column.0.clone()),
        PlanExpr::Column(c) => Some(c.0.clone()),
        PlanExpr::OperatorApplicationExp(op) => column_in(&op.operands),
        PlanExpr::ScalarFnCall(f) => column_in(&f.args),
        PlanExpr::AggregateFnCall(f) => column_in(&f.args),
        _ => None,
    }
}

fn contains_string(v: &Vec<String>, s: &String) -> (r: bool)
    ensures
        r == seq_view(v@).contains(s@),
{
    let mut i: usize = 0;
    while i < v.len()
        invariant
            i <= v.len(),
            forall|j: int| 0 <= j < i ==> seq_view(v@)[j] != s@,
        decreases v.len() - i,
    {
        if v[i] == *s {
            assert(seq_view(v@)[i as int] == s@);
            return true;
        }
        i += 1;
    }
    false
}

impl SchemaInference {
    pub fn new() -> (r: Self)
        ensures
            r == SchemaInference,
    {
        SchemaInference
    }

    /// The first column that a filter names.
    pub fn get_column_name_from_filter_predicates(&self, filter_predicates: &Vec<PlanExpr>) -> (r:
        Option<String>)
        ensures
            opt_view(r) == first_filter_column(seq_view(filter_predicates@)),
    {
        let mut i: usize = 0;
        let ghost s = seq_view(filter_predicates@);
        assert(s.take(0) =~= Seq::empty());
        while i < filter_predicates.len()
            invariant
                i <= filter_predicates.len(),
                s == seq_view(filter_predicates@),
                first_filter_column(s.take(i as int)) is None,
            decreases filter_predicates.len() - i,
        {
            proof {
                assert(s.take(i + 1).drop_last() =~= s.take(i as int));
                assert(s.take(i + 1).last() == filter_predicates@[i as int]@);
            }
            let is_op = match &filter_predicates[i] {
                PlanExpr::OperatorApplicationExp(_) => true,
                _ => false,
            };
            if is_op {
                match column_of(&filter_predicates[i]) {
                    Some(c) => {
                        proof {
                            lemma_first_filter_column_found(s, i as int);
                        }
                        return Some(c);
                    },
                    None => {},
                }
            }
            i += 1;
        }
        assert(s.take(filter_predicates.len() as int) =~= s);
        None
    }

    /// The first column that a projection item names.
    pub fn get_column_name_from_projection_items(&self, projection_items: &Vec<ProjectionItem>) -> (r:
        Option<String>)
        ensures
            opt_view(r) == first_item_column(seq_view(projection_items@)),
    {
        let mut i: usize = 0;
        let ghost s = seq_view(projection_items@);
        assert(s.take(0) =~= Seq::empty());
        while i < projection_items.len()
            invariant
                i <= projection_items.len(),
                s == seq_view(projection_items@),
                first_item_column(s.take(i as int)) is None,
            decreases projection_items.len() - i,
        {
            proof {
                assert(s.take(i + 1).drop_last() =~= s.take(i as int));
                assert(s.take(i + 1).last() == projection_items@[i as int]@);
            }
            match column_of(&projection_items[i].expression) {
                Some(c) => {
                    proof {
                        lemma_first_item_column_found(s, i as int);
                    }
                    return Some(c);
                },
                None => {},
            }
            i += 1;
        }
        assert(s.take(projection_items.len() as int) =~= s);
        None
    }

    /// The first column that the expression names.
    pub fn get_column_name_from_plan_expr(&self, exp: &PlanExpr) -> (r: Option<String>)
        ensures
            opt_view(r) == first_column(exp@),
    {
        column_of(exp)
    }

    /// The table of the one node schema that has the first column named by
    /// the filters or projections of the alias.
    pub fn get_table_name_from_filters_and_projections(
        &self,
        graph_schema: &GraphSchema,
        node_table_ctx: &TableCtx,
    ) -> (r: Option<String>)
        ensures
            opt_view(r) == table_from_columns(graph_schema@, node_table_ctx@),
    {
        let column = match self.get_column_name_from_filter_predicates(node_table_ctx.get_filters()) {
            Some(c) => Some(c),
            None => self.get_column_name_from_projection_items(node_table_ctx.get_projections()),
        };
        match column {
            None => None,
            Some(c) => {
                let nodes = graph_schema.get_nodes_schemas();
                let ghost ns = graph_schema@.nodes;
                let mut count: usize = 0;
                let mut first: Option<&NodeSchema> = None;
                let mut i: usize = 0;
                assert(ns.take(0) =~= Seq::empty());
                while i < nodes.len()
                    invariant
                        i <= nodes.len(),
                        ns == entries_view(nodes@),
                        count == nodes_with_column(ns.take(i as int), c@).len(),
                        count <= i,
                        count > 0 ==> first is Some && first->0@ == nodes_with_column(
                            ns.take(i as int),
                            c@,
                        )[0],
                    decreases nodes.len() - i,
                {
                    proof {
                        assert(ns.take(i + 1).drop_last() =~= ns.take(i as int));
                        assert(ns.take(i + 1).last() == (nodes@[i as int].0@, nodes@[i as int].1@));
                    }
                    if contains_string(&nodes[i].1.column_names, &c) {
                        if count == 0 {
                            first = Some(&nodes[i].1);
                        }
                        count = count + 1;
                    }
                    i += 1;
                }
                assert(ns.take(nodes.len() as int) =~= ns);
                if !c.as_str().is_empty() && count == 1 {
                    Some(first.unwrap().table_name.clone())
                } else {
                    None
                }
            },
        }
    }
}

/// The number of relationships that link `a` and `b`, and the first of them.
fn find_linking<'a>(graph_schema: &'a GraphSchema, a: &String, b: &String) -> (r: (
    usize,
    Option<&'a RelationshipSchema>,
))
    ensures
        r.0 == rels_linking(graph_schema@.relationships, a@, b@).len(),
        r.0 > 0 ==> r.1 is Some && r.1->0@ == rels_linking(graph_schema@.relationships, a@, b@)[0],
{
    let rels = graph_schema.get_relationships_schemas();
    let ghost rs = graph_schema@.relationships;
    let mut count: usize = 0;
    let mut first: Option<&RelationshipSchema> = None;
    let mut i: usize = 0;
    assert(rs.take(0) =~= Seq::empty());
    while i < rels.len()
        invariant
            i <= rels.len(),
            rs == entries_view(rels@),
            count == rels_linking(rs.take(i as int), a@, b@).len(),
            count <= i,
            count > 0 ==> first is Some && first->0@ == rels_linking(
                rs.take(i as int),
                a@,
                b@,
            )[0],
        decreases rels.len() - i,
    {
        proof {
            assert(rs.take(i + 1).drop_last() =~= rs.take(i as int));
            assert(rs.take(i + 1).last() == (rels@[i as int].0@, rels@[i as int].1@));
        }
        let rel = &rels[i].1;
        if (rel.from_node == *a && rel.to_node == *b) || (rel.from_node == *b && rel.to_node == *a) {
            if count == 0 {
                first = Some(rel);
            }
            count = count + 1;
        }
        i += 1;
    }
    assert(rs.take(rels.len() as int) =~= rs);
    (count, first)
}

/// The number of relationships that touch `a`, and the first of them.
fn find_touching<'a>(graph_schema: &'a GraphSchema, a: &String) -> (r: (
    usize,
    Option<&'a RelationshipSchema>,
))
    ensures
        r.0 == rels_touching(graph_schema@.relationships, a@).len(),
        r.0 > 0 ==> r.1 is Some && r.1->0@ == rels_touching(graph_schema@.relationships, a@)[0],
{
    let rels = graph_schema.get_relationships_schemas();
    let ghost rs = graph_schema@.relationships;
    let mut count: usize = 0;
    let mut first: Option<&RelationshipSchema> = None;
    let mut i: usize = 0;
    assert(rs.take(0) =~= Seq::empty());
    while i < rels.len()
        invariant
            i <= rels.len(),
            rs == entries_view(rels@),
            count == rels_touching(rs.take(i as int), a@).len(),
            count <= i,
            count > 0 ==> first is Some && first->0@ == rels_touching(rs.take(i as int), a@)[0],
        decreases rels.len() - i,
    {
        proof {
            assert(rs.take(i + 1).drop_last() =~= rs.take(i as int));
            assert(rs.take(i + 1).last() == (rels@[i as int].0@, rels@[i as int].1@));
        }
        let rel = &rels[i].1;
        if rel.from_node == *a || rel.to_node == *a {
            if count == 0 {
                first = Some(rel);
            }
            count = count + 1;
        }
        i += 1;
    }
    assert(rs.take(rels.len() as int) =~= rs);
    (count, first)
}

fn err_no_rel_schema(rel_label: &String) -> (e: AnalyzerError)
    ensures
        e@ == no_rel_schema(rel_label@),
{
    AnalyzerError::NoRelationSchemaFound { pass: Pass::SchemaInference, rel_label: rel_label.clone() }
}

fn err_no_node_schema(node_label: &String) -> (e: AnalyzerError)
    ensures
        e@ == no_node_schema(node_label@),
{
    AnalyzerError::NoNodeSchemaFound {
        pass: Pass::SchemaInference,
        node_label: node_label.clone(),
    }
}

fn err_missing_rel_label(names: &PatternAliases) -> (e: AnalyzerError)
    ensures
        e@ == missing_rel_label(names@),
{
    AnalyzerError::MissingRelationLabel { pass: Pass::SchemaInference, alias: names.rel.clone() }
}

fn err_not_enough_labels(names: &PatternAliases) -> (e: AnalyzerError)
    ensures
        e@ == not_enough_labels(names@),
{
    AnalyzerError::NotEnoughLabels {
        pass: Pass::SchemaInference,
        left_alias: names.left.clone(),
        rel_alias: names.rel.clone(),
        right_alias: names.right.clone(),
    }
}

fn end_other_than(rel: &RelationshipSchema, known: &String) -> (r: String)
    ensures
        r@ == other_end(rel@, known@),
{
    if *known == rel.from_node {
        rel.to_node.clone()
    } else {
        rel.from_node.clone()
    }
}

/// The labels as contracts see them.
pub open spec fn labels_view(r: Result<(String, String, String), AnalyzerError>) -> Result<
    (Text, Text, Text),
    AnalyzerErrorV,
> {
    match r {
        Ok((a, b, c)) => Ok((a@, b@, c@)),
        Err(e) => Err(e@),
    }
}

fn table_at_other_end(graph_schema: &GraphSchema, rel: &RelationshipSchema, known: &String) -> (r:
    Result<String, AnalyzerError>)
    ensures
        (match r {
            Ok(s) => Ok::<Text, AnalyzerErrorV>(s@),
            Err(e) => Err::<Text, AnalyzerErrorV>(e@),
        }) == other_end_table(graph_schema@, rel@, known@),
{
    let label = end_other_than(rel, known);
    match graph_schema.get_node_schema_opt(label.as_str()) {
        Some(n) => Ok(n.table_name.clone()),
        None => Err(err_no_node_schema(&label)),
    }
}

fn infer_near_and_far(
    graph_schema: &GraphSchema,
    near: &String,
    far_ctx: &TableCtx,
    names: &PatternAliases,
) -> (r: Result<
    (String, String, String),
    AnalyzerError,
>)
    ensures
        labels_view(r) == near_and_far(graph_schema@, near@, far_ctx@, names@),
{
    let (count, first) = find_touching(graph_schema, near);
    if count == 0 {
        Err(err_missing_rel_label(names))
    } else if count == 1 {
        let rel = first.unwrap();
        match table_at_other_end(graph_schema, rel, near) {
            Ok(far) => Ok((near.clone(), rel.table_name.clone(), far)),
            Err(e) => Err(e),
        }
    } else {
        let inference = SchemaInference::new();
        match inference.get_table_name_from_filters_and_projections(graph_schema, far_ctx) {
            None => Err(err_not_enough_labels(names)),
            Some(far) => {
                let (fit, first_fit) = find_linking(graph_schema, near, &far);
                if fit == 1 {
                    Ok((near.clone(), first_fit.unwrap().table_name.clone(), far))
                } else {
                    Err(err_not_enough_labels(names))
                }
            },
        }
    }
}

impl SchemaInference {
    /// The labels of a pattern `(left)-[rel]-(right)`.
    pub fn infer_missing_labels(
        &self,
        graph_schema: &GraphSchema,
        left_table_ctx: &TableCtx,
        rel_table_ctx: &TableCtx,
        right_table_ctx: &TableCtx,
        names: &PatternAliases,
    ) -> (r: Result<(String, String, String), AnalyzerError>)
        ensures
            labels_view(r) == infer_labels(
                graph_schema@,
                left_table_ctx@,
                rel_table_ctx@,
                right_table_ctx@,
                names@,
            ),
    {
        let left = left_table_ctx.get_label_opt();
        let rel = rel_table_ctx.get_label_opt();
        let right = right_table_ctx.get_label_opt();
        match (left, rel, right) {
            (Some(l), Some(r), Some(t)) => Ok((l, r, t)),
            (None, Some(r), Some(t)) => {
                match graph_schema.get_relationships_schema_opt(r.as_str()) {
                    None => Err(err_no_rel_schema(&r)),
                    Some(rs) => Ok((end_other_than(rs, &t), r, t)),
                }
            },
            (Some(l), Some(r), None) => {
                match graph_schema.get_relationships_schema_opt(r.as_str()) {
                    None => Err(err_no_rel_schema(&r)),
                    Some(rs) => {
                        let t = end_other_than(rs, &l);
                        Ok((l, r, t))
                    },
                }
            },
            (Some(l), None, Some(t)) => {
                let (count, first) = find_linking(graph_schema, &l, &t);
                if count == 0 {
                    Err(err_missing_rel_label(names))
                } else if count == 1 {
                    Ok((l, first.unwrap().table_name.clone(), t))
                } else {
                    Err(err_not_enough_labels(names))
                }
            },
            (None, Some(r), None) => {
                match graph_schema.get_relationships_schema_opt(r.as_str()) {
                    None => Err(err_no_rel_schema(&r)),
                    Some(rs) => {
                        match self.get_table_name_from_filters_and_projections(
                            graph_schema,
                            left_table_ctx,
                        ) {
                            Some(x) => match table_at_other_end(graph_schema, rs, &x) {
                                Ok(y) => Ok((x, r, y)),
                                Err(e) => Err(e),
                            },
                            None => match self.get_table_name_from_filters_and_projections(
                                graph_schema,
                                right_table_ctx,
                            ) {
                                Some(y) => match table_at_other_end(graph_schema, rs, &y) {
                                    Ok(x) => Ok((x, r, y)),
                                    Err(e) => Err(e),
                                },
                                None => {
                                    let from = graph_schema.get_node_schema_opt(
                                        rs.from_node.as_str(),
                                    );
                                    let to = graph_schema.get_node_schema_opt(rs.to_node.as_str());
                                    match (from, to) {
                                        (Some(f), Some(t)) => Ok(
                                            (f.table_name.clone(), r, t.table_name.clone()),
                                        ),
                                        (None, _) => Err(err_no_node_schema(&rs.from_node)),
                                        (Some(_), None) => Err(
                                            err_no_node_schema(&rs.to_node),
                                        ),
                                    }
                                },
                            },
                        }
                    },
                }
            },
            (Some(l), None, None) => infer_near_and_far(graph_schema, &l, right_table_ctx, names),
            (None, None, Some(t)) => match infer_near_and_far(graph_schema, &t, left_table_ctx, names) {
                Ok((near, r, far)) => Ok((far, r, near)),
                Err(e) => Err(e),
            },
            (None, None, None) => {
                let x_opt = self.get_table_name_from_filters_and_projections(
                    graph_schema,
                    left_table_ctx,
                );
                let y_opt = self.get_table_name_from_filters_and_projections(
                    graph_schema,
                    right_table_ctx,
                );
                match (x_opt, y_opt) {
                    (Some(x), Some(y)) => {
                        let (count, first) = find_linking(graph_schema, &x, &y);
                        if count == 1 {
                            Ok((x, first.unwrap().table_name.clone(), y))
                        } else {
                            Err(err_not_enough_labels(names))
                        }
                    },
                    (Some(x), None) => {
                        let (count, first) = find_touching(graph_schema, &x);
                        if count == 1 {
                            let rs = first.unwrap();
                            match table_at_other_end(graph_schema, rs, &x) {
                                Ok(y) => Ok((x, rs.table_name.clone(), y)),
                                Err(e) => Err(e),
                            }
                        } else {
                            Err(err_not_enough_labels(names))
                        }
                    },
                    (None, Some(y)) => {
                        let (count, first) = find_touching(graph_schema, &y);
                        if count == 1 {
                            let rs = first.unwrap();
                            match table_at_other_end(graph_schema, rs, &y) {
                                Ok(x) => Ok((x, rs.table_name.clone(), y)),
                                Err(e) => Err(e),
                            }
                        } else {
                            Err(err_not_enough_labels(names))
                        }
                    },
                    (None, None) => Err(err_not_enough_labels(names)),
                }
            },
        }
    }
}

/// The error for an alias that the context does not hold.
pub open spec fn ctx_miss(source: PlanCtxErrorV) -> AnalyzerErrorV {
    AnalyzerErrorV::PlanCtx { pass: Pass::SchemaInference, source }
}

/// The context with the label set for the alias, if the alias is known.
pub open spec fn with_label(ctx: PlanCtxV, alias: Text, label: Text) -> PlanCtxV {
    match ctx.get(alias) {
        Some(t) => ctx.with(alias, TableCtxV { label: Some(label), ..t }),
        None => ctx,
    }
}

/// The context after the labels of every pattern of the plan were
/// inferred, a relationship before the relationships below it.
pub open spec fn infer_schema(p: PlanV, ctx: PlanCtxV, schema: GraphSchemaV) -> Result<
    PlanCtxV,
    AnalyzerErrorV,
>
    decreases p,
{
    match p {
        PlanV::Empty => Ok(ctx),
        PlanV::Scan { .. } => Ok(ctx),
        PlanV::GraphRel { left, center, right, alias, left_connection, right_connection, .. } => {
            match (ctx.get(left_connection), ctx.get(alias), ctx.get(right_connection)) {
                (None, _, _) => Err(
                    ctx_miss(PlanCtxErrorV::MissingNodeTableCtx { alias: left_connection }),
                ),
                (Some(_), None, _) => Err(ctx_miss(PlanCtxErrorV::MissingRelTableCtx { alias })),
                (Some(_), Some(_), None) => Err(
                    ctx_miss(PlanCtxErrorV::MissingNodeTableCtx { alias: right_connection }),
                ),
                (Some(l), Some(r), Some(t)) => match infer_labels(
                    schema,
                    l,
                    r,
                    t,
                    PatternAliasesV { left: left_connection, rel: alias, right: right_connection },
                ) {
                    Err(e) => Err(e),
                    Ok((ll, rl, tl)) => {
                        let c0 = with_label(
                            with_label(with_label(ctx, left_connection, ll), alias, rl),
                            right_connection,
                            tl,
                        );
                        match infer_schema(*left, c0, schema) {
                            Err(e) => Err(e),
                            Ok(c1) => match infer_schema(*center, c1, schema) {
                                Err(e) => Err(e),
                                Ok(c2) => infer_schema(*right, c2, schema),
                            },
                        }
                    },
                },
            }
        },
        PlanV::Union { inputs } => infer_schema_all(inputs, ctx, schema),
        _ => infer_schema(p.input(), ctx, schema),
    }
}

pub open spec fn infer_schema_all(s: Seq<PlanV>, ctx: PlanCtxV, schema: GraphSchemaV) -> Result<
    PlanCtxV,
    AnalyzerErrorV,
>
    decreases s,
{
    if s.len() == 0 {
        Ok(ctx)
    } else {
        match infer_schema_all(s.drop_last(), ctx, schema) {
            Err(e) => Err(e),
            Ok(c) => infer_schema(s.last(), c, schema),
        }
    }
}

/// The plan with the table of every scan filled in from the label of its
/// alias.
pub open spec fn push_table_names(p: PlanV, ctx: PlanCtxV) -> Result<
    Transformed<PlanV>,
    AnalyzerErrorV,
>
    decreases p,
{
    match p {
        PlanV::Empty => Ok(Transformed::No(p)),
        PlanV::Scan { table_alias, .. } => match ctx.get(table_alias) {
            None => Err(ctx_miss(PlanCtxErrorV::MissingTableCtx { alias: table_alias })),
            Some(t) => Ok(Transformed::Yes(PlanV::Scan { table_alias, table_name: t.label })),
        },
        PlanV::GraphRel { left, center, right, .. } => match push_table_names(*left, ctx) {
            Err(e) => Err(e),
            Ok(l) => match push_table_names(*center, ctx) {
                Err(e) => Err(e),
                Ok(c) => match push_table_names(*right, ctx) {
                    Err(e) => Err(e),
                    Ok(r) => Ok(rebuild_rel(p, l, c, r)),
                },
            },
        },
        PlanV::Union { inputs } => match push_table_names_all(inputs, ctx) {
            Err(e) => Err(e),
            Ok(tfs) => Ok(rebuild_union(p, tfs)),
        },
        _ => match push_table_names(p.input(), ctx) {
            Err(e) => Err(e),
            Ok(tf) => Ok(rebuild(p, tf)),
        },
    }
}

pub open spec fn push_table_names_all(s: Seq<PlanV>, ctx: PlanCtxV) -> Result<
    Seq<Transformed<PlanV>>,
    AnalyzerErrorV,
>
    decreases s,
{
    if s.len() == 0 {
        Ok(Seq::empty())
    } else {
        match push_table_names_all(s.drop_last(), ctx) {
            Err(e) => Err(e),
            Ok(tfs) => match push_table_names(s.last(), ctx) {
                Err(e) => Err(e),
                Ok(tf) => Ok(tfs.push(tf)),
            },
        }
    }
}

proof fn lemma_infer_schema_all_err(s: Seq<PlanV>, ctx: PlanCtxV, schema: GraphSchemaV, i: int)
    requires
        0 <= i < s.len(),
        infer_schema_all(s.take(i + 1), ctx, schema) is Err,
    ensures
        infer_schema_all(s, ctx, schema) == infer_schema_all(s.take(i + 1), ctx, schema),
    decreases s.len() - i,
{
    if i + 1 < s.len() {
        assert(s.take(i + 2).drop_last() =~= s.take(i + 1));
        lemma_infer_schema_all_err(s, ctx, schema, i + 1);
    } else {
        assert(s.take(i + 1) =~= s);
    }
}

proof fn lemma_push_table_names_all_err(s: Seq<PlanV>, ctx: PlanCtxV, i: int)
    requires
        0 <= i < s.len(),
        push_table_names_all(s.take(i + 1), ctx) is Err,
    ensures
        push_table_names_all(s, ctx) == push_table_names_all(s.take(i + 1), ctx),
    decreases s.len() - i,
{
    if i + 1 < s.len() {
        assert(s.take(i + 2).drop_last() =~= s.take(i + 1));
        lemma_push_table_names_all_err(s, ctx, i + 1);
    } else {
        assert(s.take(i + 1) =~= s);
    }
}

/// The outcome of a pass that leaves the context alone, as contracts see it.
pub open spec fn pass_view(r: Result<Transformed<Arc<LogicalPlan>>, AnalyzerError>) -> Result<
    Transformed<PlanV>,
    AnalyzerErrorV,
> {
    match r {
        Ok(tf) => Ok(tf_view(tf)),
        Err(e) => Err(e@),
    }
}

fn set_label_of(plan_ctx: &mut PlanCtx, alias: &String, label: String)
    ensures
        final(plan_ctx)@ == with_label(old(plan_ctx)@, alias@, label@),
{
    match plan_ctx.get_mut_table_ctx_opt(alias.as_str()) {
        Some(table_ctx) => {
            table_ctx.set_label(Some(label));
        },
        None => {},
    }
}

fn wrap_ctx_error(source: PlanCtxError) -> (e: AnalyzerError)
    ensures
        e@ == ctx_miss(source@),
{
    AnalyzerError::PlanCtx { pass: Pass::SchemaInference, source }
}

impl SchemaInference {

    /// Fills in the table of every scan from the label of its alias.
    pub fn push_inferred_table_names_to_scan(
        &self,
        logical_plan: Arc<LogicalPlan>,
        plan_ctx: &mut PlanCtx,
    ) -> (r: Result<Transformed<Arc<LogicalPlan>>, AnalyzerError>)
        ensures
            pass_view(r) == push_table_names(logical_plan@, old(plan_ctx)@),
            r matches Ok(tf) ==> (tf is No ==> tf.plan() == logical_plan),
            *final(plan_ctx) == *old(plan_ctx),
    {
        push_names(&logical_plan, plan_ctx)
    }

    /// Infers the labels of every pattern of the plan.
    pub fn infer_schema(
        &self,
        plan: &Arc<LogicalPlan>,
        plan_ctx: &mut PlanCtx,
        graph_schema: &GraphSchema,
    ) -> (r: Result<(), AnalyzerError>)
        ensures
            match r {
                Ok(_) => infer_schema(plan@, old(plan_ctx)@, graph_schema@) == Ok::<
                    PlanCtxV,
                    AnalyzerErrorV,
                >(final(plan_ctx)@),
                Err(e) => infer_schema(plan@, old(plan_ctx)@, graph_schema@) == Err::<
                    PlanCtxV,
                    AnalyzerErrorV,
                >(e@),
            },
        decreases plan,
    {
        match &**plan {
            LogicalPlan::Empty => Ok(()),
            LogicalPlan::Scan(_) => Ok(()),
            LogicalPlan::GraphRel(rel) => {
                let labels = {
                    let left_ctx = match plan_ctx.get_node_table_ctx(rel.left_connection.as_str()) {
                        Ok(t) => t,
                        Err(e) => {
                            return Err(wrap_ctx_error(e));
                        },
                    };
                    let rel_ctx = match plan_ctx.get_rel_table_ctx(rel.alias.as_str()) {
                        Ok(t) => t,
                        Err(e) => {
                            return Err(wrap_ctx_error(e));
                        },
                    };
                    let right_ctx = match plan_ctx.get_node_table_ctx(
                        rel.right_connection.as_str(),
                    ) {
                        Ok(t) => t,
                        Err(e) => {
                            return Err(wrap_ctx_error(e));
                        },
                    };
                    let names = PatternAliases {
                        left: rel.left_connection.clone(),
                        rel: rel.alias.clone(),
                        right: rel.right_connection.clone(),
                    };
                    self.infer_missing_labels(graph_schema, left_ctx, rel_ctx, right_ctx, &names)
                };
                let (left_label, rel_label, right_label) = match labels {
                    Ok(l) => l,
                    Err(e) => {
                        return Err(e);
                    },
                };
                set_label_of(plan_ctx, &rel.left_connection, left_label);
                set_label_of(plan_ctx, &rel.alias, rel_label);
                set_label_of(plan_ctx, &rel.right_connection, right_label);
                match self.infer_schema(&rel.left, plan_ctx, graph_schema) {
                    Ok(_) => {},
                    Err(e) => {
                        return Err(e);
                    },
                }
                match self.infer_schema(&rel.center, plan_ctx, graph_schema) {
                    Ok(_) => {},
                    Err(e) => {
                        return Err(e);
                    },
                }
                self.infer_schema(&rel.right, plan_ctx, graph_schema)
            },
            LogicalPlan::Union(_) => {
                let n = union_len(plan);
                let mut i: usize = 0;
                let ghost inputs = plan@->inputs;
                assert(inputs.take(0) =~= Seq::empty());
                while i < n
                    invariant
                        i <= n,
                        plan@ is Union,
                        inputs == plan@->inputs,
                        n == inputs.len(),
                        infer_schema_all(inputs.take(i as int), old(plan_ctx)@, graph_schema@)
                            == Ok::<PlanCtxV, AnalyzerErrorV>(plan_ctx@),
                    decreases n - i,
                {
                    let child = union_input(plan, i);
                    proof {
                        assert(inputs.take(i + 1).drop_last() =~= inputs.take(i as int));
                    }
                    match self.infer_schema(&child, plan_ctx, graph_schema) {
                        Ok(_) => {},
                        Err(e) => {
                            proof {
                                assert(infer_schema_all(
                                    inputs.take(i + 1),
                                    old(plan_ctx)@,
                                    graph_schema@,
                                ) == Err::<PlanCtxV, AnalyzerErrorV>(e@));
                                lemma_infer_schema_all_err(
                                    inputs,
                                    old(plan_ctx)@,
                                    graph_schema@,
                                    i as int,
                                );
                            }
                            return Err(e);
                        },
                    }
                    i += 1;
                }
                assert(inputs.take(n as int) =~= inputs);
                Ok(())
            },
            _ => {
                let child = single_input(plan).unwrap();
                self.infer_schema(&child, plan_ctx, graph_schema)
            },
        }
    }
}

impl AnalyzerPass for SchemaInference {
    open spec fn analysis(&self, plan: PlanV, ctx: PlanCtxV, outcome: Analysis) -> bool {
        outcome == untouched(plan, ctx)
    }

    open spec fn analysis_with_graph_schema(
        &self,
        plan: PlanV,
        ctx: PlanCtxV,
        schema: GraphSchemaV,
        outcome: Analysis,
    ) -> bool {
        outcome == match infer_schema(plan, ctx, schema) {
            Err(e) => Err(e),
            Ok(c) => match push_table_names(plan, c) {
                Err(e) => Err(e),
                Ok(tf) => Ok((tf, c)),
            },
        }
    }

    /// The pass reads the catalog: without one it leaves the plan and the
    /// context as they are.
    fn analyze(&self, logical_plan: Arc<LogicalPlan>, plan_ctx: &mut PlanCtx) -> (r: Result<
        Transformed<Arc<LogicalPlan>>,
        AnalyzerError,
    >) {
        Ok(Transformed::No(logical_plan))
    }

    /// Infers the labels, then fills in the table of every scan.
    fn analyze_with_graph_schema(
        &self,
        logical_plan: Arc<LogicalPlan>,
        plan_ctx: &mut PlanCtx,
        graph_schema: &GraphSchema,
    ) -> (r: Result<Transformed<Arc<LogicalPlan>>, AnalyzerError>)
        ensures
            match infer_schema(logical_plan@, old(plan_ctx)@, graph_schema@) {
                Err(e) => r matches Err(err) && err@ == e,
                Ok(c) => final(plan_ctx)@ == c && pass_view(r) == push_table_names(
                    logical_plan@,
                    c,
                ),
            },
            r matches Ok(tf) ==> (tf is No ==> tf.plan() == logical_plan),
    {
        match self.infer_schema(&logical_plan, plan_ctx, graph_schema) {
            Err(e) => Err(e),
            Ok(_) => self.push_inferred_table_names_to_scan(logical_plan, plan_ctx),
        }
    }
}

fn push_names(plan: &Arc<LogicalPlan>, plan_ctx: &PlanCtx) -> (r: Result<
    Transformed<Arc<LogicalPlan>>,
    AnalyzerError,
>)
    ensures
        pass_view(r) == push_table_names(plan@, plan_ctx@),
        r matches Ok(tf) ==> (tf is No ==> tf.plan() == *plan),
    decreases plan,
{
    match &**plan {
        LogicalPlan::Empty => Ok(Transformed::No(plan.clone())),
        LogicalPlan::Scan(scan) => {
            match plan_ctx.get_table_ctx(scan.table_alias.as_str()) {
                Ok(table_ctx) => Ok(
                    Transformed::Yes(
                        Arc::new(
                            LogicalPlan::Scan(
                                Scan {
                                    table_alias: scan.table_alias.clone(),
                                    table_name: table_ctx.get_label_opt(),
                                },
                            ),
                        ),
                    ),
                ),
                Err(e) => Err(wrap_ctx_error(e)),
            }
        },
        LogicalPlan::GraphRel(rel) => {
            let left_tf = match push_names(&rel.left, plan_ctx) {
                Ok(tf) => tf,
                Err(e) => {
                    return Err(e);
                },
            };
            let center_tf = match push_names(&rel.center, plan_ctx) {
                Ok(tf) => tf,
                Err(e) => {
                    return Err(e);
                },
            };
            let right_tf = match push_names(&rel.right, plan_ctx) {
                Ok(tf) => tf,
                Err(e) => {
                    return Err(e);
                },
            };
            Ok(rebuild_graph_rel(plan, left_tf, center_tf, right_tf))
        },
        LogicalPlan::Union(_) => {
            let n = union_len(plan);
            let mut tfs: Vec<Transformed<Arc<LogicalPlan>>> = Vec::new();
            let mut i: usize = 0;
            let ghost inputs = plan@->inputs;
            assert(inputs.take(0) =~= Seq::empty());
            assert(tfs_view(tfs@) =~= Seq::empty());
            while i < n
                invariant
                    i <= n,
                    plan@ is Union,
                    inputs == plan@->inputs,
                    n == inputs.len(),
                    push_table_names_all(inputs.take(i as int), plan_ctx@) == Ok::<
                        Seq<Transformed<PlanV>>,
                        AnalyzerErrorV,
                    >(tfs_view(tfs@)),
                decreases n - i,
            {
                let child = union_input(plan, i);
                proof {
                    assert(inputs.take(i + 1).drop_last() =~= inputs.take(i as int));
                }
                match push_names(&child, plan_ctx) {
                    Ok(tf) => {
                        proof {
                            assert(tfs_view(tfs@.push(tf)) =~= tfs_view(tfs@).push(tf_view(tf)));
                        }
                        tfs.push(tf);
                    },
                    Err(e) => {
                        proof {
                            assert(push_table_names_all(inputs.take(i + 1), plan_ctx@) == Err::<
                                Seq<Transformed<PlanV>>,
                                AnalyzerErrorV,
                            >(e@));
                            lemma_push_table_names_all_err(inputs, plan_ctx@, i as int);
                        }
                        return Err(e);
                    },
                }
                i += 1;
            }
            assert(inputs.take(n as int) =~= inputs);
            Ok(rebuild_union_node(plan, tfs))
        },
        _ => {
            let child = single_input(plan).unwrap();
            match push_names(&child, plan_ctx) {
                Ok(tf) => Ok(rebuild_single(plan, tf)),
                Err(e) => Err(e),
            }
        },
    }
}

} // verus!
