//! Graph-join inference: the joins by which the outer query reassembles
//! the rows of the CTEs, one relationship after the other.
use vstd::prelude::*;
use vstd::string::StringExecFns;
use std::sync::Arc;
use crate::analyzer::analyzer_pass::{untouched, Analysis, AnalyzerPass};
use crate::analyzer::pattern_lookup::{check_pattern, pattern_miss};
use crate::errors::{
    AnalyzerError, AnalyzerErrorV, GraphSchemaError, GraphSchemaErrorV, Pass, PlanCtxError,
    PlanCtxErrorV,
};
use crate::expr::{
    lemma_expr_view, Column, Direction, ExprV, OpAppV, Operator, OperatorApplication, PlanExpr,
    PropertyAccess, PropertyAccessV, TableAlias,
};
use crate::graph_schema::{GraphSchema, GraphSchemaV};
use crate::logical_plan::{
    clone_joins, lemma_union_view, rebuild, rebuild_graph_rel, rebuild_rel, rebuild_single,
    rebuild_union, rebuild_union_node, single_input, tf_view, tfs_view, union_input, union_len,
    GraphJoins, GraphRel, Join, JoinV, LogicalPlan, PlanV,
};
use crate::plan_ctx::{PlanCtx, PlanCtxV};
use crate::text::{ends_with, join_underscore, joined, strip_suffix, without_suffix};
use crate::transformed::Transformed;
use crate::views::{contains_text, insert_text, seq_view, text_set, Text};

verus! {

broadcast use lemma_expr_view, lemma_union_view;

pub struct GraphJoinInference;

/// The label of a relationship without the direction that traversal
/// planning may have put at its end.
pub open spec fn base_rel_label(label: Text) -> Text {
    if ends_with(label, "_incoming"@) {
        without_suffix(label, "_incoming"@)
    } else if ends_with(label, "_outgoing"@) {
        without_suffix(label, "_outgoing"@)
    } else if ends_with(label, "_either"@) {
        without_suffix(label, "_either"@)
    } else {
        label
    }
}

/// The label under which the catalog holds the schema of a relationship
/// whose alias has the given label: the label itself where the catalog
/// holds it, else the label without the direction at its end. So a
/// relationship whose own label ends in a direction is found under its
/// label.
pub open spec fn catalog_rel_label(schema: GraphSchemaV, label: Text) -> Text {
    if schema.relationship(label) is Some {
        label
    } else {
        base_rel_label(label)
    }
}

pub open spec fn ctx_error(source: PlanCtxErrorV) -> AnalyzerErrorV {
    AnalyzerErrorV::PlanCtx { pass: Pass::GraphJoinInference, source }
}

pub open spec fn schema_error(source: GraphSchemaErrorV) -> AnalyzerErrorV {
    AnalyzerErrorV::GraphSchema { pass: Pass::GraphJoinInference, source }
}

/// `a.a_col = b.b_col`.
pub open spec fn equality(a: Text, a_col: Text, b: Text, b_col: Text) -> OpAppV {
    OpAppV {
        operator: Operator::Equal,
        operands: seq![
            ExprV::PropertyAccess(PropertyAccessV { table_alias: a, column: a_col }),
            ExprV::PropertyAccess(PropertyAccessV { table_alias: b, column: b_col }),
        ],
    }
}

/// What join inference knows of one alias of a pattern.
pub ghost struct JoinEndV {
    pub alias: Text,
    pub label: Text,
    pub table_name: Text,
    pub id_column: Text,
}

/// What join inference knows of a pattern `(left)-[rel]-(right)`.
pub ghost struct JoinContextV {
    pub left: JoinEndV,
    pub right: JoinEndV,
    pub rel_alias: Text,
    pub rel_label: Text,
    pub rel_from_node: Text,
    pub use_edge_list: bool,
}

pub open spec fn node_end(ctx: PlanCtxV, schema: GraphSchemaV, alias: Text) -> Result<
    JoinEndV,
    AnalyzerErrorV,
> {
    match ctx.get(alias) {
        None => Err(ctx_error(PlanCtxErrorV::MissingNodeTableCtx { alias })),
        Some(t) => match t.label {
            None => Err(ctx_error(PlanCtxErrorV::MissingLabel { alias })),
            Some(label) => match schema.node(label) {
                None => Err(schema_error(GraphSchemaErrorV::NoNodeSchemaFound { node_label: label })),
                Some(n) => Ok(
                    JoinEndV { alias, label, table_name: n.table_name, id_column: n.id_column },
                ),
            },
        },
    }
}

/// What join inference knows of a pattern, or the first thing that is
/// missing: the contexts of the three aliases are looked up first, then
/// their labels, then their schemas. The relationship schema goes by
/// `catalog_rel_label`.
pub open spec fn join_context(
    ctx: PlanCtxV,
    schema: GraphSchemaV,
    left_connection: Text,
    alias: Text,
    right_connection: Text,
) -> Result<JoinContextV, AnalyzerErrorV> {
    match pattern_miss(
        Pass::GraphJoinInference,
        ctx,
        schema,
        left_connection,
        alias,
        right_connection,
        true,
    ) {
        Some(e) => Err(e),
        None => match node_end(ctx, schema, left_connection) {
            Err(e) => Err(e),
            Ok(left) => match ctx.get(alias) {
                None => Err(ctx_error(PlanCtxErrorV::MissingRelTableCtx { alias })),
                Some(t) => match t.label {
                    None => Err(ctx_error(PlanCtxErrorV::MissingLabel { alias })),
                    Some(label) => match schema.relationship(catalog_rel_label(schema, label)) {
                        None => Err(
                            schema_error(
                                GraphSchemaErrorV::NoRelationSchemaFound {
                                    rel_label: catalog_rel_label(schema, label),
                                },
                            ),
                        ),
                        Some(r) => match node_end(ctx, schema, right_connection) {
                            Err(e) => Err(e),
                            Ok(right) => Ok(
                                JoinContextV {
                                    left,
                                    right,
                                    rel_alias: alias,
                                    rel_label: label,
                                    rel_from_node: r.from_node,
                                    use_edge_list: t.needs_edge_list(),
                                },
                            ),
                        },
                    },
                },
            },
        },
    }
}

/// `true` when the relationship CTE meets the node that is joined first
/// at its `from_id` column.
///
/// - An edge list between nodes of one table goes by the direction.
/// - Another edge list goes by the node at its `from` side.
/// - A bitmap index has the right endpoint at `from_id`.
pub open spec fn first_at_from(g: JoinContextV, direction: Direction, right_joined: bool) -> bool {
    if g.use_edge_list {
        if g.left.table_name == g.right.table_name {
            direction == Direction::Incoming
        } else if g.rel_from_node == g.right.table_name {
            right_joined
        } else {
            !right_joined
        }
    } else {
        right_joined
    }
}

/// The joins of one relationship, and the aliases joined after it.
///
/// The relationship is joined to the endpoint that is joined already: to
/// the right one if it is, else to the left one; the other endpoint is
/// then joined to the relationship. A relationship whose left child is
/// `Empty` has both endpoints joined already, and its one join holds both
/// equalities.
pub open spec fn rel_joins(
    g: JoinContextV,
    direction: Direction,
    standalone: bool,
    joined_before: Set<Text>,
) -> (Seq<JoinV>, Set<Text>) {
    let right_joined = joined_before.contains(g.right.alias);
    let first = if right_joined {
        g.right
    } else {
        g.left
    };
    let second = if right_joined {
        g.left
    } else {
        g.right
    };
    let at_from = first_at_from(g, direction, right_joined);
    let near = if at_from {
        "from_id"@
    } else {
        "to_id"@
    };
    let far = if at_from {
        "to_id"@
    } else {
        "from_id"@
    };
    let rel_name = joined(g.rel_label, g.rel_alias);
    let rel_to_first = equality(g.rel_alias, near, first.alias, first.id_column);
    if standalone {
        (
            seq![
                JoinV {
                    table_name: rel_name,
                    table_alias: g.rel_alias,
                    joining_on: seq![
                        rel_to_first,
                        equality(g.rel_alias, far, second.alias, second.id_column),
                    ],
                },
            ],
            joined_before.insert(g.rel_alias),
        )
    } else {
        (
            seq![
                JoinV { table_name: rel_name, table_alias: g.rel_alias, joining_on: seq![rel_to_first] },
                JoinV {
                    table_name: joined(second.label, second.alias),
                    table_alias: second.alias,
                    joining_on: seq![equality(second.alias, second.id_column, g.rel_alias, far)],
                },
            ],
            joined_before.insert(g.rel_alias).insert(second.alias),
        )
    }
}

/// The joins of the relationships of a plan, in the order in which a walk
/// meets them that goes down the right child of every relationship.
pub open spec fn collect_joins(
    p: PlanV,
    ctx: PlanCtxV,
    schema: GraphSchemaV,
    joined_before: Set<Text>,
) -> Result<(Seq<JoinV>, Set<Text>), AnalyzerErrorV>
    decreases p,
{
    match p {
        PlanV::Empty => Ok((Seq::empty(), joined_before)),
        PlanV::Scan { .. } => Ok((Seq::empty(), joined_before)),
        PlanV::GraphRel { left, right, alias, direction, left_connection, right_connection, .. } => {
            match join_context(ctx, schema, left_connection, alias, right_connection) {
                Err(e) => Err(e),
                Ok(g) => {
                    let (own, s1) = rel_joins(g, direction, *left is Empty, joined_before);
                    match collect_joins(*right, ctx, schema, s1) {
                        Err(e) => Err(e),
                        Ok((below, s2)) => Ok((own + below, s2)),
                    }
                },
            }
        },
        PlanV::Union { inputs } => collect_joins_all(inputs, ctx, schema, joined_before),
        _ => collect_joins(p.input(), ctx, schema, joined_before),
    }
}

pub open spec fn collect_joins_all(
    s: Seq<PlanV>,
    ctx: PlanCtxV,
    schema: GraphSchemaV,
    joined_before: Set<Text>,
) -> Result<(Seq<JoinV>, Set<Text>), AnalyzerErrorV>
    decreases s,
{
    if s.len() == 0 {
        Ok((Seq::empty(), joined_before))
    } else {
        match collect_joins_all(s.drop_last(), ctx, schema, joined_before) {
            Err(e) => Err(e),
            Ok((joins, s1)) => match collect_joins(s.last(), ctx, schema, s1) {
                Err(e) => Err(e),
                Ok((more, s2)) => Ok((joins + more, s2)),
            },
        }
    }
}

/// `sorted` with `j` behind the last join that has no more equalities than `j`.
pub open spec fn insert_join(sorted: Seq<JoinV>, j: JoinV) -> Seq<JoinV>
    decreases sorted.len(),
{
    if sorted.len() == 0 {
        seq![j]
    } else if sorted.last().joining_on.len() <= j.joining_on.len() {
        sorted.push(j)
    } else {
        insert_join(sorted.drop_last(), j).push(sorted.last())
    }
}

/// The joins by ascending number of equalities; joins with as many stay
/// in their order.
pub open spec fn sort_joins(joins: Seq<JoinV>) -> Seq<JoinV>
    decreases joins.len(),
{
    if joins.len() == 0 {
        Seq::empty()
    } else {
        insert_join(sort_joins(joins.drop_last()), joins.last())
    }
}

/// `true` when no join has fewer equalities than one before it.
pub open spec fn ascending(joins: Seq<JoinV>) -> bool {
    forall|i: int, j: int|
        0 <= i < j < joins.len() ==> joins[i].joining_on.len() <= joins[j].joining_on.len()
}

pub proof fn lemma_insert_join(sorted: Seq<JoinV>, j: JoinV)
    requires
        ascending(sorted),
    ensures
        ascending(insert_join(sorted, j)),
        insert_join(sorted, j).to_multiset() == sorted.to_multiset().insert(j),
        insert_join(sorted, j).len() == sorted.len() + 1,
    decreases sorted.len(),
{
    broadcast use vstd::seq_lib::group_to_multiset_ensures;

    if sorted.len() == 0 {
        assert(insert_join(sorted, j) =~= Seq::<JoinV>::empty().push(j));
        assert(sorted =~= Seq::<JoinV>::empty());
    } else if sorted.last().joining_on.len() <= j.joining_on.len() {
    } else {
        let init = sorted.drop_last();
        lemma_insert_join(init, j);
        let r = insert_join(init, j);
        assert(sorted =~= init.push(sorted.last()));
        assert forall|a: int, b: int| 0 <= a < b < r.push(sorted.last()).len() implies r.push(
            sorted.last(),
        )[a].joining_on.len() <= r.push(sorted.last())[b].joining_on.len() by {
            if b == r.len() {
                let x = r[a];
                assert(r.contains(x));
                assert(r.to_multiset().count(x) > 0);
                if x != j {
                    assert(init.to_multiset().count(x) > 0);
                    assert(init.contains(x));
                    let k = choose|k: int| 0 <= k < init.len() && init[k] == x;
                    assert(sorted[k] == x);
                }
            }
        }
        assert(r.push(sorted.last()).to_multiset() =~= sorted.to_multiset().insert(j));
    }
}

/// The sorted joins are ascending, and they are the joins that were given.
pub proof fn lemma_sort_joins(joins: Seq<JoinV>)
    ensures
        ascending(sort_joins(joins)),
        sort_joins(joins).to_multiset() == joins.to_multiset(),
        sort_joins(joins).len() == joins.len(),
    decreases joins.len(),
{
    broadcast use vstd::seq_lib::group_to_multiset_ensures;

    if joins.len() > 0 {
        lemma_sort_joins(joins.drop_last());
        lemma_insert_join(sort_joins(joins.drop_last()), joins.last());
        assert(joins =~= joins.drop_last().push(joins.last()));
    } else {
        assert(joins =~= Seq::<JoinV>::empty());
    }
}

/// The plan with the first projection on every path wrapped in the joins.
pub open spec fn wrap_projections(p: PlanV, joins: Seq<JoinV>) -> Transformed<PlanV>
    decreases p,
{
    match p {
        PlanV::Empty => Transformed::No(p),
        PlanV::Scan { .. } => Transformed::No(p),
        PlanV::Projection { .. } => Transformed::Yes(
            PlanV::GraphJoins { input: Box::new(p), joins },
        ),
        PlanV::GraphRel { left, center, right, .. } => rebuild_rel(
            p,
            wrap_projections(*left, joins),
            wrap_projections(*center, joins),
            wrap_projections(*right, joins),
        ),
        PlanV::Union { inputs } => rebuild_union(p, wrap_projections_all(inputs, joins)),
        _ => rebuild(p, wrap_projections(p.input(), joins)),
    }
}

pub open spec fn wrap_projections_all(s: Seq<PlanV>, joins: Seq<JoinV>) -> Seq<Transformed<PlanV>>
    decreases s,
{
    if s.len() == 0 {
        Seq::empty()
    } else {
        wrap_projections_all(s.drop_last(), joins).push(wrap_projections(s.last(), joins))
    }
}

/// What the pass makes of a plan: the joins of its relationships, sorted
/// by their number of equalities, above its outermost projection; the plan
/// as it is where it has no relationship.
pub open spec fn join_inference(p: PlanV, ctx: PlanCtxV, schema: GraphSchemaV) -> Result<
    Transformed<PlanV>,
    AnalyzerErrorV,
> {
    match collect_joins(p, ctx, schema, Set::empty()) {
        Err(e) => Err(e),
        Ok((joins, _)) => if joins.len() == 0 {
            Ok(Transformed::No(p))
        } else {
            Ok(wrap_projections(p, sort_joins(joins)))
        },
    }
}

/// What join inference knows of one alias of a pattern.
pub struct JoinEnd {
    pub alias: String,
    pub label: String,
    pub table_name: String,
    pub id_column: String,
}

impl View for JoinEnd {
    type V = JoinEndV;

    open spec fn view(&self) -> JoinEndV {
        JoinEndV {
            alias: self.alias@,
            label: self.label@,
            table_name: self.table_name@,
            id_column: self.id_column@,
        }
    }
}

/// What join inference knows of a pattern.
pub struct JoinContext {
    pub left: JoinEnd,
    pub right: JoinEnd,
    pub rel_alias: String,
    pub rel_label: String,
    pub rel_from_node: String,
    pub use_edge_list: bool,
}

impl View for JoinContext {
    type V = JoinContextV;

    open spec fn view(&self) -> JoinContextV {
        JoinContextV {
            left: self.left@,
            right: self.right@,
            rel_alias: self.rel_alias@,
            rel_label: self.rel_label@,
            rel_from_node: self.rel_from_node@,
            use_edge_list: self.use_edge_list,
        }
    }
}

fn err_ctx(source: PlanCtxError) -> (e: AnalyzerError)
    ensures
        e@ == ctx_error(source@),
{
    AnalyzerError::PlanCtx { pass: Pass::GraphJoinInference, source }
}

fn err_schema(source: GraphSchemaError) -> (e: AnalyzerError)
    ensures
        e@ == schema_error(source@),
{
    AnalyzerError::GraphSchema { pass: Pass::GraphJoinInference, source }
}

/// The label of a relationship without the direction at its end.
pub fn base_label(label: &String) -> (r: String)
    ensures
        r@ == base_rel_label(label@),
{
    match strip_suffix(label.as_str(), "_incoming") {
        Some(head) => head,
        None => match strip_suffix(label.as_str(), "_outgoing") {
            Some(head) => head,
            None => match strip_suffix(label.as_str(), "_either") {
                Some(head) => head,
                None => label.clone(),
            },
        },
    }
}

/// The label under which the catalog holds the schema of a relationship.
pub fn catalog_label_of(graph_schema: &GraphSchema, label: &String) -> (r: String)
    ensures
        r@ == catalog_rel_label(graph_schema@, label@),
{
    if graph_schema.get_relationships_schema_opt(label.as_str()).is_some() {
        label.clone()
    } else {
        base_label(label)
    }
}

fn find_node_end(plan_ctx: &PlanCtx, graph_schema: &GraphSchema, alias: &String) -> (r: Result<
    JoinEnd,
    AnalyzerError,
>)
    ensures
        crate::errors::res_view(r) == node_end(plan_ctx@, graph_schema@, alias@),
{
    let table_ctx = match plan_ctx.get_node_table_ctx(alias.as_str()) {
        Ok(t) => t,
        Err(e) => {
            return Err(err_ctx(e));
        },
    };
    let label = match table_ctx.get_label_opt() {
        Some(l) => l,
        None => {
            return Err(err_ctx(PlanCtxError::MissingLabel { alias: alias.clone() }));
        },
    };
    let schema = match graph_schema.get_node_schema(label.as_str()) {
        Ok(s) => s,
        Err(e) => {
            return Err(err_schema(e));
        },
    };
    Ok(
        JoinEnd {
            alias: alias.clone(),
            label,
            table_name: schema.table_name.clone(),
            id_column: schema.node_id.column.clone(),
        },
    )
}

fn find_join_context(graph_rel: &GraphRel, plan_ctx: &PlanCtx, graph_schema: &GraphSchema) -> (r:
    Result<JoinContext, AnalyzerError>)
    ensures
        crate::errors::res_view(r) == join_context(
            plan_ctx@,
            graph_schema@,
            graph_rel.left_connection@,
            graph_rel.alias@,
            graph_rel.right_connection@,
        ),
{
    match check_pattern(
        Pass::GraphJoinInference,
        plan_ctx,
        graph_schema,
        &graph_rel.left_connection,
        &graph_rel.alias,
        &graph_rel.right_connection,
        true,
    ) {
        Ok(_) => {},
        Err(e) => {
            return Err(e);
        },
    }
    let left = match find_node_end(plan_ctx, graph_schema, &graph_rel.left_connection) {
        Ok(n) => n,
        Err(e) => {
            return Err(e);
        },
    };
    let rel_ctx = match plan_ctx.get_rel_table_ctx(graph_rel.alias.as_str()) {
        Ok(t) => t,
        Err(e) => {
            return Err(err_ctx(e));
        },
    };
    let rel_label = match rel_ctx.get_label_opt() {
        Some(l) => l,
        None => {
            return Err(err_ctx(PlanCtxError::MissingLabel { alias: graph_rel.alias.clone() }));
        },
    };
    let base = catalog_label_of(graph_schema, &rel_label);
    let rel_schema = match graph_schema.get_rel_schema(base.as_str()) {
        Ok(s) => s,
        Err(e) => {
            return Err(err_schema(e));
        },
    };
    let right = match find_node_end(plan_ctx, graph_schema, &graph_rel.right_connection) {
        Ok(n) => n,
        Err(e) => {
            return Err(e);
        },
    };
    Ok(
        JoinContext {
            left,
            right,
            rel_alias: graph_rel.alias.clone(),
            rel_label,
            rel_from_node: rel_schema.from_node.clone(),
            use_edge_list: rel_ctx.should_use_edge_list(),
        },
    )
}

fn make_equality(a: &String, a_col: &str, b: &String, b_col: &str) -> (r: OperatorApplication)
    ensures
        r@ == equality(a@, a_col@, b@, b_col@),
{
    let lhs = PlanExpr::PropertyAccessExp(
        PropertyAccess {
            table_alias: TableAlias(a.clone()),
            column: Column(String::from_str(a_col)),
        },
    );
    let rhs = PlanExpr::PropertyAccessExp(
        PropertyAccess {
            table_alias: TableAlias(b.clone()),
            column: Column(String::from_str(b_col)),
        },
    );
    let operands = vec![lhs, rhs];
    assert(seq_view(operands@) =~= seq![lhs@, rhs@]);
    OperatorApplication { operator: Operator::Equal, operands }
}

fn make_join(table_name: String, table_alias: &String, on: Vec<OperatorApplication>) -> (r: Join)
    ensures
        r@ == (JoinV {
            table_name: table_name@,
            table_alias: table_alias@,
            joining_on: seq_view(on@),
        }),
{
    Join { table_name, table_alias: table_alias.clone(), joining_on: on }
}

/// The joins of one relationship.
fn joins_of(g: &JoinContext, direction: Direction, standalone: bool, joined_entities: &mut Vec<String>) -> (r: Vec<
    Join,
>)
    ensures
        (seq_view(r@), text_set(final(joined_entities)@)) == rel_joins(
            g@,
            direction,
            standalone,
            text_set(old(joined_entities)@),
        ),
{
    let right_joined = contains_text(joined_entities, &g.right.alias);
    let first = if right_joined {
        &g.right
    } else {
        &g.left
    };
    let second = if right_joined {
        &g.left
    } else {
        &g.right
    };
    let at_from = if g.use_edge_list {
        if g.left.table_name == g.right.table_name {
            direction == Direction::Incoming
        } else if g.rel_from_node == g.right.table_name {
            right_joined
        } else {
            !right_joined
        }
    } else {
        right_joined
    };
    let near = if at_from {
        "from_id"
    } else {
        "to_id"
    };
    let far = if at_from {
        "to_id"
    } else {
        "from_id"
    };
    let rel_name = join_underscore(g.rel_label.as_str(), g.rel_alias.as_str());
    let rel_to_first = make_equality(&g.rel_alias, near, &first.alias, first.id_column.as_str());
    if standalone {
        let both = vec![
            rel_to_first,
            make_equality(&g.rel_alias, far, &second.alias, second.id_column.as_str()),
        ];
        assert(seq_view(both@) =~= seq![both@[0]@, both@[1]@]);
        let out = vec![make_join(rel_name, &g.rel_alias, both)];
        assert(seq_view(out@) =~= seq![out@[0]@]);
        insert_text(joined_entities, g.rel_alias.clone());
        out
    } else {
        let on_rel = vec![rel_to_first];
        assert(seq_view(on_rel@) =~= seq![rel_to_first@]);
        let on_node = vec![
            make_equality(&second.alias, second.id_column.as_str(), &g.rel_alias, far),
        ];
        assert(seq_view(on_node@) =~= seq![on_node@[0]@]);
        let out = vec![
            make_join(rel_name, &g.rel_alias, on_rel),
            make_join(
                join_underscore(second.label.as_str(), second.alias.as_str()),
                &second.alias,
                on_node,
            ),
        ];
        assert(seq_view(out@) =~= seq![out@[0]@, out@[1]@]);
        insert_text(joined_entities, g.rel_alias.clone());
        insert_text(joined_entities, second.alias.clone());
        out
    }
}

fn append_joins(collected: &mut Vec<Join>, more: Vec<Join>)
    ensures
        seq_view(final(collected)@) == seq_view(old(collected)@) + seq_view(more@),
{
    let mut more = more;
    let ghost added = more@;
    collected.append(&mut more);
    assert(seq_view(collected@) =~= seq_view(old(collected)@) + seq_view(added));
}

proof fn lemma_collect_joins_all_err(
    s: Seq<PlanV>,
    ctx: PlanCtxV,
    schema: GraphSchemaV,
    joined_before: Set<Text>,
    i: int,
)
    requires
        0 <= i < s.len(),
        collect_joins_all(s.take(i + 1), ctx, schema, joined_before) is Err,
    ensures
        collect_joins_all(s, ctx, schema, joined_before) is Err,
        collect_joins_all(s, ctx, schema, joined_before)->Err_0 == collect_joins_all(
            s.take(i + 1),
            ctx,
            schema,
            joined_before,
        )->Err_0,
    decreases s.len() - i,
{
    if i + 1 < s.len() {
        assert(s.take(i + 2).drop_last() =~= s.take(i + 1));
        lemma_collect_joins_all_err(s, ctx, schema, joined_before, i + 1);
    } else {
        assert(s.take(i + 1) =~= s);
    }
}

/// Puts a join behind the last join that has no more equalities.
fn insert_sorted(sorted: &mut Vec<Join>, join: Join)
    ensures
        seq_view(final(sorted)@) == insert_join(seq_view(old(sorted)@), join@),
{
    let key = join.joining_on.len();
    let mut pos: usize = sorted.len();
    let ghost s = seq_view(sorted@);
    while pos > 0 && sorted[pos - 1].joining_on.len() > key
        invariant
            pos <= sorted.len(),
            *sorted == *old(sorted),
            s == seq_view(sorted@),
            key == join@.joining_on.len(),
            forall|k: int| pos <= k < s.len() ==> (#[trigger] s[k]).joining_on.len() > key,
        decreases pos,
    {
        pos -= 1;
    }
    proof {
        lemma_insert_at(s, join@, pos as int);
    }
    sorted.insert(pos, join);
    assert(seq_view(sorted@) =~= s.take(pos as int).push(join@) + s.skip(pos as int));
}

/// Where every join from `pos` on has more equalities than `j`, and the
/// join before `pos` has not, `j` goes in at `pos`.
proof fn lemma_insert_at(s: Seq<JoinV>, j: JoinV, pos: int)
    requires
        0 <= pos <= s.len(),
        forall|k: int| pos <= k < s.len() ==> (#[trigger] s[k]).joining_on.len() > j.joining_on.len(),
        pos > 0 ==> s[pos - 1].joining_on.len() <= j.joining_on.len(),
    ensures
        insert_join(s, j) == s.take(pos).push(j) + s.skip(pos),
    decreases s.len() - pos,
{
    if pos == s.len() {
        assert(s.take(pos) =~= s);
        assert(s.skip(pos) =~= Seq::<JoinV>::empty());
        assert(s.take(pos).push(j) + s.skip(pos) =~= s.push(j));
        if s.len() > 0 {
            assert(s.last() == s[pos - 1]);
        }
    } else {
        let init = s.drop_last();
        assert(s.last() == s[s.len() - 1]);
        assert forall|k: int| pos <= k < init.len() implies (#[trigger] init[k]).joining_on.len()
            > j.joining_on.len() by {
            assert(init[k] == s[k]);
        }
        if pos > 0 {
            assert(init[pos - 1] == s[pos - 1]);
        }
        lemma_insert_at(init, j, pos);
        assert(init.take(pos) =~= s.take(pos));
        assert((init.take(pos).push(j) + init.skip(pos)).push(s.last()) =~= s.take(pos).push(j)
            + s.skip(pos));
    }
}

/// The joins by ascending number of equalities.
pub fn sort_by_on_len(joins: &Vec<Join>) -> (sorted: Vec<Join>)
    ensures
        seq_view(sorted@) == sort_joins(seq_view(joins@)),
{
    let mut sorted: Vec<Join> = Vec::new();
    let mut i: usize = 0;
    let ghost s = seq_view(joins@);
    assert(s.take(0) =~= Seq::empty());
    assert(seq_view(sorted@) =~= Seq::empty());
    while i < joins.len()
        invariant
            i <= joins.len(),
            s == seq_view(joins@),
            seq_view(sorted@) == sort_joins(s.take(i as int)),
        decreases joins.len() - i,
    {
        proof {
            assert(s.take(i + 1).drop_last() =~= s.take(i as int));
            assert(s.take(i + 1).last() == joins@[i as int]@);
        }
        insert_sorted(&mut sorted, joins[i].deep_clone());
        i += 1;
    }
    assert(s.take(joins.len() as int) =~= s);
    sorted
}

impl GraphJoinInference {
    pub fn new() -> (r: Self)
        ensures
            r == GraphJoinInference,
    {
        GraphJoinInference
    }

    /// Adds the joins of one relationship to `collected_graph_joins`, and
    /// the aliases that they join to `joined_entities`.
    pub fn infer_graph_join(
        &self,
        graph_rel: &GraphRel,
        plan_ctx: &PlanCtx,
        graph_schema: &GraphSchema,
        collected_graph_joins: &mut Vec<Join>,
        joined_entities: &mut Vec<String>,
    ) -> (r: Result<(), AnalyzerError>)
        ensures
            match join_context(
                plan_ctx@,
                graph_schema@,
                graph_rel.left_connection@,
                graph_rel.alias@,
                graph_rel.right_connection@,
            ) {
                Err(e) => r matches Err(err) && err@ == e && *final(collected_graph_joins) == *old(
                    collected_graph_joins,
                ) && *final(joined_entities) == *old(joined_entities),
                Ok(g) => r is Ok && ({
                    let (own, after) = rel_joins(
                        g,
                        graph_rel.direction,
                        (*graph_rel.left)@ is Empty,
                        text_set(old(joined_entities)@),
                    );
                    seq_view(final(collected_graph_joins)@) == seq_view(old(collected_graph_joins)@)
                        + own && text_set(final(joined_entities)@) == after
                }),
            },
    {
        let g = match find_join_context(graph_rel, plan_ctx, graph_schema) {
            Ok(g) => g,
            Err(e) => {
                return Err(e);
            },
        };
        let standalone = match &*graph_rel.left {
            LogicalPlan::Empty => true,
            _ => false,
        };
        let own = joins_of(&g, graph_rel.direction, standalone, joined_entities);
        append_joins(collected_graph_joins, own);
        Ok(())
    }

    /// Adds the joins of the relationships of a plan.
    pub fn collect_graph_joins(
        &self,
        plan: &Arc<LogicalPlan>,
        plan_ctx: &PlanCtx,
        graph_schema: &GraphSchema,
        collected_graph_joins: &mut Vec<Join>,
        joined_entities: &mut Vec<String>,
    ) -> (r: Result<(), AnalyzerError>)
        ensures
            match collect_joins(plan@, plan_ctx@, graph_schema@, text_set(old(joined_entities)@)) {
                Err(e) => r matches Err(err) && err@ == e,
                Ok((joins, after)) => r is Ok && seq_view(final(collected_graph_joins)@)
                    == seq_view(old(collected_graph_joins)@) + joins && text_set(
                    final(joined_entities)@,
                ) == after,
            },
        decreases plan,
    {
        match &**plan {
            LogicalPlan::Empty => {
                assert(seq_view(collected_graph_joins@) =~= seq_view(collected_graph_joins@)
                    + Seq::<JoinV>::empty());
                Ok(())
            },
            LogicalPlan::Scan(_) => {
                assert(seq_view(collected_graph_joins@) =~= seq_view(collected_graph_joins@)
                    + Seq::<JoinV>::empty());
                Ok(())
            },
            LogicalPlan::GraphRel(rel) => {
                match self.infer_graph_join(
                    rel,
                    plan_ctx,
                    graph_schema,
                    collected_graph_joins,
                    joined_entities,
                ) {
                    Ok(_) => {},
                    Err(e) => {
                        return Err(e);
                    },
                }
                let ghost mid = seq_view(collected_graph_joins@);
                let r = self.collect_graph_joins(
                    &rel.right,
                    plan_ctx,
                    graph_schema,
                    collected_graph_joins,
                    joined_entities,
                );
                proof {
                    if r is Ok {
                        let g = join_context(
                            plan_ctx@,
                            graph_schema@,
                            rel.left_connection@,
                            rel.alias@,
                            rel.right_connection@,
                        )->Ok_0;
                        let (own, s1) = rel_joins(
                            g,
                            rel.direction,
                            (*rel.left)@ is Empty,
                            text_set(old(joined_entities)@),
                        );
                        let below = collect_joins(rel.right@, plan_ctx@, graph_schema@, s1)->Ok_0.0;
                        assert(seq_view(old(collected_graph_joins)@) + own + below =~= seq_view(
                            old(collected_graph_joins)@,
                        ) + (own + below));
                    }
                }
                r
            },
            LogicalPlan::Union(_) => {
                let n = union_len(plan);
                let mut i: usize = 0;
                let ghost inputs = plan@->inputs;
                let ghost before = seq_view(collected_graph_joins@);
                let ghost seen = text_set(joined_entities@);
                assert(inputs.take(0) =~= Seq::empty());
                assert(before =~= before + Seq::<JoinV>::empty());
                while i < n
                    invariant
                        i <= n,
                        plan@ is Union,
                        inputs == plan@->inputs,
                        n == inputs.len(),
                        seen == text_set(old(joined_entities)@),
                        before == seq_view(old(collected_graph_joins)@),
                        collect_joins_all(inputs.take(i as int), plan_ctx@, graph_schema@, seen)
                            is Ok,
                        seq_view(collected_graph_joins@) == before + collect_joins_all(
                            inputs.take(i as int),
                            plan_ctx@,
                            graph_schema@,
                            seen,
                        )->Ok_0.0,
                        text_set(joined_entities@) == collect_joins_all(
                            inputs.take(i as int),
                            plan_ctx@,
                            graph_schema@,
                            seen,
                        )->Ok_0.1,
                    decreases n - i,
                {
                    let child = union_input(plan, i);
                    let ghost so_far = collect_joins_all(
                        inputs.take(i as int),
                        plan_ctx@,
                        graph_schema@,
                        seen,
                    )->Ok_0;
                    proof {
                        assert(inputs.take(i + 1).drop_last() =~= inputs.take(i as int));
                    }
                    match self.collect_graph_joins(
                        &child,
                        plan_ctx,
                        graph_schema,
                        collected_graph_joins,
                        joined_entities,
                    ) {
                        Ok(_) => {
                            proof {
                                let more = collect_joins(
                                    inputs[i as int],
                                    plan_ctx@,
                                    graph_schema@,
                                    so_far.1,
                                )->Ok_0;
                                assert(before + so_far.0 + more.0 =~= before + (so_far.0 + more.0));
                            }
                        },
                        Err(e) => {
                            proof {
                                assert(collect_joins(
                                    inputs[i as int],
                                    plan_ctx@,
                                    graph_schema@,
                                    so_far.1,
                                ) == Err::<(Seq<JoinV>, Set<Text>), AnalyzerErrorV>(e@));
                                assert(collect_joins_all(
                                    inputs.take(i + 1),
                                    plan_ctx@,
                                    graph_schema@,
                                    seen,
                                ) == Err::<(Seq<JoinV>, Set<Text>), AnalyzerErrorV>(e@));
                                lemma_collect_joins_all_err(
                                    inputs,
                                    plan_ctx@,
                                    graph_schema@,
                                    seen,
                                    i as int,
                                );
                            }
                            return Err(e);
                        },
                    }
                    i += 1;
                }
                assert(inputs.take(n as int) =~= inputs);
                Ok(())
            },
            _ => {
                let child = single_input(plan).unwrap();
                self.collect_graph_joins(
                    &child,
                    plan_ctx,
                    graph_schema,
                    collected_graph_joins,
                    joined_entities,
                )
            },
        }
    }

    /// Wraps the first projection on every path in the joins.
    pub fn build_graph_joins(&self, plan: &Arc<LogicalPlan>, collected_graph_joins: &Vec<Join>) -> (r:
        Transformed<Arc<LogicalPlan>>)
        ensures
            tf_view(r) == wrap_projections(plan@, seq_view(collected_graph_joins@)),
            r is No ==> r.plan() == *plan,
        decreases plan,
    {
        match &**plan {
            LogicalPlan::Empty => Transformed::No(plan.clone()),
            LogicalPlan::Scan(_) => Transformed::No(plan.clone()),
            LogicalPlan::Projection(_) => Transformed::Yes(
                Arc::new(
                    LogicalPlan::GraphJoins(
                        GraphJoins { input: plan.clone(), joins: clone_joins(collected_graph_joins) },
                    ),
                ),
            ),
            LogicalPlan::GraphRel(rel) => {
                let left_tf = self.build_graph_joins(&rel.left, collected_graph_joins);
                let center_tf = self.build_graph_joins(&rel.center, collected_graph_joins);
                let right_tf = self.build_graph_joins(&rel.right, collected_graph_joins);
                rebuild_graph_rel(plan, left_tf, center_tf, right_tf)
            },
            LogicalPlan::Union(_) => {
                let n = union_len(plan);
                let mut tfs: Vec<Transformed<Arc<LogicalPlan>>> = Vec::new();
                let mut i: usize = 0;
                let ghost inputs = plan@->inputs;
                while i < n
                    invariant
                        i <= n,
                        plan@ is Union,
                        inputs == plan@->inputs,
                        n == inputs.len(),
                        tfs_view(tfs@) == wrap_projections_all(
                            inputs.take(i as int),
                            seq_view(collected_graph_joins@),
                        ),
                    decreases n - i,
                {
                    let child = union_input(plan, i);
                    let tf = self.build_graph_joins(&child, collected_graph_joins);
                    proof {
                        assert(inputs.take(i + 1).drop_last() =~= inputs.take(i as int));
                        assert(tfs_view(tfs@.push(tf)) =~= tfs_view(tfs@).push(tf_view(tf)));
                    }
                    tfs.push(tf);
                    i += 1;
                }
                assert(inputs.take(n as int) =~= inputs);
                rebuild_union_node(plan, tfs)
            },
            _ => {
                let child = single_input(plan).unwrap();
                let tf = self.build_graph_joins(&child, collected_graph_joins);
                rebuild_single(plan, tf)
            },
        }
    }

}

impl AnalyzerPass for GraphJoinInference {
    open spec fn analysis(&self, plan: PlanV, ctx: PlanCtxV, outcome: Analysis) -> bool {
        outcome == untouched(plan, ctx)
    }

    open spec fn analysis_with_graph_schema(
        &self,
        plan: PlanV,
        ctx: PlanCtxV,
        schema: GraphSchemaV,
        outcome: Analysis,
    ) -> bool {
        outcome == match join_inference(plan, ctx, schema) {
            Err(e) => Err(e),
            Ok(tf) => Ok((tf, ctx)),
        }
    }

    /// The pass reads the catalog: without one it leaves the plan and the
    /// context as they are.
    fn analyze(&self, logical_plan: Arc<LogicalPlan>, plan_ctx: &mut PlanCtx) -> (r: Result<
        Transformed<Arc<LogicalPlan>>,
        AnalyzerError,
    >) {
        Ok(Transformed::No(logical_plan))
    }

    /// Runs the pass on a plan.
    fn analyze_with_graph_schema(
        &self,
        logical_plan: Arc<LogicalPlan>,
        plan_ctx: &mut PlanCtx,
        graph_schema: &GraphSchema,
    ) -> (r: Result<Transformed<Arc<LogicalPlan>>, AnalyzerError>)
        ensures
            crate::analyzer::schema_inference::pass_view(r) == join_inference(
                logical_plan@,
                old(plan_ctx)@,
                graph_schema@,
            ),
            r matches Ok(tf) ==> (tf is No ==> tf.plan() == logical_plan),
            *final(plan_ctx) == *old(plan_ctx),
    {
        let mut collected: Vec<Join> = Vec::new();
        let mut joined_entities: Vec<String> = Vec::new();
        assert(text_set(joined_entities@) =~= Set::empty());
        assert(seq_view(collected@) =~= Seq::empty());
        match self.collect_graph_joins(
            &logical_plan,
            plan_ctx,
            graph_schema,
            &mut collected,
            &mut joined_entities,
        ) {
            Err(e) => Err(e),
            Ok(_) => {
                let ghost joins = collect_joins(
                    logical_plan@,
                    plan_ctx@,
                    graph_schema@,
                    Set::empty(),
                )->Ok_0.0;
                assert(seq_view(collected@) =~= joins);
                if collected.len() > 0 {
                    let sorted = sort_by_on_len(&collected);
                    Ok(self.build_graph_joins(&logical_plan, &sorted))
                } else {
                    Ok(Transformed::No(logical_plan))
                }
            },
        }
    }
}

} // verus!
