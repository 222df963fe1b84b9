//! The logical plan builder: the clauses of a query become a tree of
//! logical operators, and every alias of the patterns gets a context.
use vstd::prelude::*;
use vstd::string::StringExecFns;
use std::sync::Arc;
use crate::analyzer::graph_traversal_planning::{generate_id, is_generated_alias};
use crate::ast::{
    lemma_ast_expr_view, AstExprV, AstOrderByItemV, ConnectedPattern, ConnectedPatternV,
    Expression, LimitClause, MatchClause, NodePattern, NodePatternV, OpenCypherQueryAst,
    OrderByClause, OrerByOrder, PathPattern, PathPatternV, RelationshipPattern, ReturnClause, ReturnItemV, SkipClause, WhereClause,
};
use crate::errors::LogicalPlanError;
use crate::expr::{
    clone_properties, lemma_expr_view, AggregateFnCall, Column, ColumnAlias, Direction, ExprV,
    FnCallV, OpAppV, Operator, OperatorApplication, PlanExpr, Property, PropertyAccess,
    PropertyAccessV, PropertyV, ScalarFnCall, TableAlias,
};
use crate::logical_plan::{
    Filter, GraphNode, GraphRel, Limit, LogicalPlan, OrderBy, OrderByItem, OrderByItemV,
    OrderByOrder, PlanV, Projection, ProjectionItem, ProjectionItemV, Scan, Skip,
};
use crate::plan_ctx::{PlanCtx, PlanCtxV, TableCtx, TableCtxV};
use crate::views::{clone_opt_string, opt_view, seq_view, Text};

verus! {

broadcast use lemma_expr_view, lemma_ast_expr_view;

/// `true` when `name` is `lower` up to the case of its letters, `upper`
/// being `lower` in capitals.
pub open spec fn name_matches(name: Text, lower: Text, upper: Text) -> bool {
    &&& name.len() == lower.len()
    &&& name.len() == upper.len()
    &&& forall|i: int| 0 <= i < name.len() ==> name[i] == lower[i] || name[i] == upper[i]
}

/// `true` for the names of the aggregate functions: `count`, `min`, `max`,
/// `avg`, `sum`, in any case.
pub open spec fn is_aggregate_name(name: Text) -> bool {
    name_matches(name, "count"@, "COUNT"@) || name_matches(name, "min"@, "MIN"@) || name_matches(
        name,
        "max"@,
        "MAX"@,
    ) || name_matches(name, "avg"@, "AVG"@) || name_matches(name, "sum"@, "SUM"@)
}

/// The plan expression of an expression of the syntax tree: the variable
/// `*` is `Star`, another variable a table alias; a call of an aggregate
/// function is told from a call of a scalar function by its name.
pub open spec fn plan_expr(e: AstExprV) -> ExprV
    decreases e,
{
    match e {
        AstExprV::Literal(l) => ExprV::Literal(l),
        AstExprV::Variable(v) => if v == "*"@ {
            ExprV::Star
        } else {
            ExprV::TableAlias(v)
        },
        AstExprV::Parameter(p) => ExprV::Parameter(p),
        AstExprV::List(s) => ExprV::List(plan_exprs(s)),
        AstExprV::FunctionCall { name, args } => if is_aggregate_name(name) {
            ExprV::AggregateFnCall(FnCallV { name, args: plan_exprs(args) })
        } else {
            ExprV::ScalarFnCall(FnCallV { name, args: plan_exprs(args) })
        },
        AstExprV::PropertyAccess { base, key } => ExprV::PropertyAccess(
            PropertyAccessV { table_alias: base, column: key },
        ),
        AstExprV::OperatorApplication { operator, operands } => ExprV::OperatorApplication(
            OpAppV { operator, operands: plan_exprs(operands) },
        ),
    }
}

pub open spec fn plan_exprs(s: Seq<AstExprV>) -> Seq<ExprV>
    decreases s,
{
    if s.len() == 0 {
        Seq::empty()
    } else {
        plan_exprs(s.drop_last()).push(plan_expr(s.last()))
    }
}

fn matches_ignoring_case(name: &str, lower: &str, upper: &str) -> (r: bool)
    ensures
        r == name_matches(name@, lower@, upper@),
{
    let n = name.unicode_len();
    if n != lower.unicode_len() || n != upper.unicode_len() {
        return false;
    }
    let mut i: usize = 0;
    while i < n
        invariant
            i <= n,
            n == name@.len(),
            n == lower@.len(),
            n == upper@.len(),
            forall|j: int| 0 <= j < i ==> name@[j] == lower@[j] || name@[j] == upper@[j],
        decreases n - i,
    {
        let c = name.get_char(i);
        if c != lower.get_char(i) && c != upper.get_char(i) {
            return false;
        }
        i += 1;
    }
    true
}

/// `true` for the name of an aggregate function.
pub fn is_aggregate_fn(name: &str) -> (r: bool)
    ensures
        r == is_aggregate_name(name@),
{
    matches_ignoring_case(name, "count", "COUNT") || matches_ignoring_case(name, "min", "MIN")
        || matches_ignoring_case(name, "max", "MAX") || matches_ignoring_case(name, "avg", "AVG")
        || matches_ignoring_case(name, "sum", "SUM")
}

fn convert_exprs(v: &Vec<Expression>) -> (out: Vec<PlanExpr>)
    ensures
        seq_view(out@) == plan_exprs(seq_view(v@)),
    decreases v,
{
    let mut out: Vec<PlanExpr> = Vec::new();
    let mut i: usize = 0;
    let ghost s = seq_view(v@);
    assert(s.take(0) =~= Seq::empty());
    assert(seq_view(out@) =~= Seq::empty());
    while i < v.len()
        invariant
            i <= v.len(),
            s == seq_view(v@),
            seq_view(out@) == plan_exprs(s.take(i as int)),
        decreases v.len() - i,
    {
        proof {
            assert(s.take(i + 1).drop_last() =~= s.take(i as int));
            assert(s.take(i + 1).last() == v@[i as int]@);
        }
        let c = convert_expr(&v[i]);
        let ghost prev = out@;
        out.push(c);
        assert(seq_view(out@) =~= seq_view(prev).push(c@));
        i += 1;
    }
    assert(s.take(v.len() as int) =~= s);
    out
}

/// The plan expression of an expression of the syntax tree.
pub fn convert_expr(e: &Expression) -> (r: PlanExpr)
    ensures
        r@ == plan_expr(e@),
    decreases e,
{
    match e {
        Expression::Literal(l) => PlanExpr::Literal(l.deep_clone()),
        Expression::Variable(v) => {
            let star = String::from_str("*");
            if *v == star {
                PlanExpr::Star
            } else {
                PlanExpr::TableAlias(TableAlias(v.clone()))
            }
        },
        Expression::Parameter(p) => PlanExpr::Parameter(p.clone()),
        Expression::List(items) => PlanExpr::List(convert_exprs(items)),
        Expression::FunctionCallExp(f) => {
            let args = convert_exprs(&f.args);
            if is_aggregate_fn(f.name.as_str()) {
                PlanExpr::AggregateFnCall(AggregateFnCall { name: f.name.clone(), args })
            } else {
                PlanExpr::ScalarFnCall(ScalarFnCall { name: f.name.clone(), args })
            }
        },
        Expression::PropertyAccessExp(pa) => PlanExpr::PropertyAccessExp(
            PropertyAccess {
                table_alias: TableAlias(pa.base.clone()),
                column: Column(pa.key.clone()),
            },
        ),
        Expression::OperatorApplicationExp(op) => PlanExpr::OperatorApplicationExp(
            OperatorApplication { operator: op.operator, operands: convert_exprs(&op.operands) },
        ),
    }
}

/// A context without pushed-down predicates or projections.
pub open spec fn fresh_ctx(
    label: Option<Text>,
    properties: Seq<PropertyV>,
    is_rel: bool,
    explicit_alias: bool,
) -> TableCtxV {
    TableCtxV {
        label,
        properties,
        filter_predicates: Seq::empty(),
        projection_items: Seq::empty(),
        is_rel,
        use_edge_list: false,
        explicit_alias,
    }
}

/// The context of an alias that a pattern names again: a label that the
/// pattern gives stands, and its properties are added.
pub open spec fn merged_ctx(t: TableCtxV, label: Option<Text>, properties: Seq<PropertyV>) -> TableCtxV {
    TableCtxV {
        label: if label is Some {
            label
        } else {
            t.label
        },
        properties: if properties.len() > 0 {
            t.properties + properties
        } else {
            t.properties
        },
        ..t
    }
}

/// The plan context after an alias that it holds was named again.
pub open spec fn merged(ctx: PlanCtxV, alias: Text, label: Option<Text>, properties: Seq<PropertyV>) -> PlanCtxV {
    match ctx.get(alias) {
        Some(t) => ctx.with(alias, merged_ctx(t, label, properties)),
        None => ctx,
    }
}

/// The scan of an alias whose table is not known yet.
pub open spec fn scan_plan(alias: Text) -> PlanV {
    PlanV::Scan { table_alias: alias, table_name: None }
}

/// A node of a pattern over its scan.
pub open spec fn node_plan(alias: Text, down_connection: Option<Text>) -> PlanV {
    PlanV::GraphNode { input: Box::new(scan_plan(alias)), alias, down_connection }
}

/// A relationship between a new left endpoint and the plan so far.
pub open spec fn rel_plan(
    left: PlanV,
    right: PlanV,
    alias: Text,
    direction: Direction,
    left_connection: Text,
    right_connection: Text,
) -> PlanV {
    PlanV::GraphRel {
        left: Box::new(left),
        center: Box::new(scan_plan(alias)),
        right: Box::new(right),
        alias,
        direction,
        left_connection,
        right_connection,
        is_rel_anchor: false,
    }
}

/// The name of a pattern element, or the fresh alias of an anonymous one.
pub open spec fn alias_or(name: Option<Text>, fresh: Text) -> Text {
    match name {
        Some(n) => n,
        None => fresh,
    }
}

/// What one `(start)-[rel]-(end)` adds to the plan and the context.
///
/// The endpoint that the context holds already connects to the plan so
/// far, which becomes the right child; the other endpoint becomes the
/// left child. Where the context holds neither, the pattern starts the
/// plan if it belongs to the first path of the `MATCH`, and is an error
/// otherwise.
pub open spec fn connect(
    cp: ConnectedPatternV,
    plan: PlanV,
    ctx: PlanCtxV,
    first_path: bool,
    start_id: Text,
    rel_id: Text,
    end_id: Text,
) -> Result<(PlanV, PlanCtxV), LogicalPlanError> {
    let s = alias_or(cp.start_node.name, start_id);
    let r = alias_or(cp.relationship.name, rel_id);
    let e = alias_or(cp.end_node.name, end_id);
    let start_ctx = fresh_ctx(
        cp.start_node.label,
        cp.start_node.properties,
        false,
        cp.start_node.name is Some,
    );
    let end_ctx = fresh_ctx(
        cp.end_node.label,
        cp.end_node.properties,
        false,
        cp.end_node.name is Some,
    );
    let rel_ctx = fresh_ctx(
        cp.relationship.label,
        cp.relationship.properties,
        true,
        cp.relationship.name is Some,
    );
    let direction = cp.relationship.direction;
    if ctx.contains(s) {
        Ok(
            (
                rel_plan(node_plan(e, Some(r)), plan, r, direction, e, s),
                merged(ctx, s, cp.start_node.label, cp.start_node.properties).with(e, end_ctx).with(
                    r,
                    rel_ctx,
                ),
            ),
        )
    } else if ctx.contains(e) {
        Ok(
            (
                rel_plan(node_plan(s, Some(r)), plan, r, direction, s, e),
                merged(ctx, e, cp.end_node.label, cp.end_node.properties).with(s, start_ctx).with(
                    r,
                    rel_ctx,
                ),
            ),
        )
    } else if !first_path {
        Err(LogicalPlanError::DisconnectedPatternFound)
    } else {
        Ok(
            (
                rel_plan(node_plan(e, Some(r)), node_plan(s, None), r, direction, e, s),
                ctx.with(s, start_ctx).with(e, end_ctx).with(r, rel_ctx),
            ),
        )
    }
}

/// What a chain of connected patterns adds, each taking three fresh
/// aliases from `ids`, starting at `next`.
pub open spec fn connect_all(
    cps: Seq<ConnectedPatternV>,
    plan: PlanV,
    ctx: PlanCtxV,
    first_path: bool,
    ids: Seq<Text>,
    next: int,
) -> Result<(PlanV, PlanCtxV), LogicalPlanError>
    decreases cps.len(),
{
    if cps.len() == 0 {
        Ok((plan, ctx))
    } else {
        match connect_all(cps.drop_last(), plan, ctx, first_path, ids, next) {
            Err(e) => Err(e),
            Ok((p, c)) => {
                let at = next + 3 * (cps.len() - 1);
                connect(cps.last(), p, c, first_path, ids[at], ids[at + 1], ids[at + 2])
            },
        }
    }
}

/// What a standalone node adds. A node that the context holds already
/// leaves the plan as it is; a new node becomes the plan.
pub open spec fn standalone(n: NodePatternV, plan: PlanV, ctx: PlanCtxV) -> Result<
    (PlanV, PlanCtxV),
    LogicalPlanError,
> {
    match n.name {
        None => Err(LogicalPlanError::EmptyNode),
        Some(alias) => if ctx.contains(alias) {
            Ok((plan, merged(ctx, alias, n.label, n.properties)))
        } else {
            Ok((node_plan(alias, None), ctx.with(alias, fresh_ctx(n.label, n.properties, false, true))))
        },
    }
}

/// The number of fresh aliases that a path pattern takes.
pub open spec fn pattern_ids(p: PathPatternV) -> nat {
    match p {
        PathPatternV::Node(_) => 0,
        PathPatternV::ConnectedPattern(cps) => 3 * cps.len(),
    }
}

/// The number of fresh aliases that the path patterns take.
pub open spec fn patterns_ids(s: Seq<PathPatternV>) -> nat
    decreases s.len(),
{
    if s.len() == 0 {
        0
    } else {
        patterns_ids(s.drop_last()) + pattern_ids(s.last())
    }
}

/// What the path patterns of a `MATCH` add, in the order in which they
/// are written.
pub open spec fn match_patterns(
    s: Seq<PathPatternV>,
    plan: PlanV,
    ctx: PlanCtxV,
    ids: Seq<Text>,
) -> Result<(PlanV, PlanCtxV), LogicalPlanError>
    decreases s.len(),
{
    if s.len() == 0 {
        Ok((plan, ctx))
    } else {
        match match_patterns(s.drop_last(), plan, ctx, ids) {
            Err(e) => Err(e),
            Ok((p, c)) => match s.last() {
                PathPatternV::Node(n) => standalone(n, p, c),
                PathPatternV::ConnectedPattern(cps) => connect_all(
                    cps,
                    p,
                    c,
                    s.len() == 1,
                    ids,
                    patterns_ids(s.drop_last()) as int,
                ),
            },
        }
    }
}

/// The equality predicates of inline properties; parameters give none.
pub open spec fn property_filters(props: Seq<PropertyV>) -> Seq<ExprV>
    decreases props.len(),
{
    if props.len() == 0 {
        Seq::empty()
    } else {
        match props.last() {
            PropertyV::PropertyKV { key, value } => property_filters(props.drop_last()).push(
                ExprV::OperatorApplication(
                    OpAppV {
                        operator: Operator::Equal,
                        operands: seq![ExprV::Column(key), ExprV::Literal(value)],
                    },
                ),
            ),
            PropertyV::Param(_) => property_filters(props.drop_last()),
        }
    }
}

/// The context of an alias with its inline properties turned into
/// predicates. An alias with such a predicate is read from its edge list.
pub open spec fn with_property_filters(t: TableCtxV) -> TableCtxV {
    let added = property_filters(t.properties);
    TableCtxV {
        properties: Seq::empty(),
        filter_predicates: t.filter_predicates + added,
        use_edge_list: added.len() > 0 || t.use_edge_list,
        ..t
    }
}

/// The plan context with the inline properties of every alias turned into
/// predicates.
pub open spec fn properties_converted(ctx: PlanCtxV) -> PlanCtxV {
    PlanCtxV {
        entries: Seq::new(
            ctx.entries.len(),
            |i: int| (ctx.entries[i].0, with_property_filters(ctx.entries[i].1)),
        ),
        ..ctx
    }
}

/// The plan and the context of a `MATCH` clause.
pub open spec fn match_clause_plan(
    patterns: Seq<PathPatternV>,
    plan: PlanV,
    ctx: PlanCtxV,
    ids: Seq<Text>,
) -> Result<(PlanV, PlanCtxV), LogicalPlanError> {
    match match_patterns(patterns, plan, ctx, ids) {
        Err(e) => Err(e),
        Ok((p, c)) => Ok((p, properties_converted(c))),
    }
}

/// The projection item of a returned item.
pub open spec fn projection_item(item: ReturnItemV) -> ProjectionItemV {
    ProjectionItemV { expression: plan_expr(item.expression), col_alias: item.alias }
}

pub open spec fn projection_items(items: Seq<ReturnItemV>) -> Seq<ProjectionItemV> {
    Seq::new(items.len(), |i: int| projection_item(items[i]))
}

/// The order-by item of the syntax tree as the plan has it: a variable
/// names a column alias.
pub open spec fn order_item(item: AstOrderByItemV) -> OrderByItemV {
    OrderByItemV {
        expression: match item.expression {
            AstExprV::Variable(v) => ExprV::ColumnAlias(v),
            other => plan_expr(other),
        },
        order: match item.order {
            OrerByOrder::Asc => OrderByOrder::Asc,
            OrerByOrder::Desc => OrderByOrder::Desc,
        },
    }
}

pub open spec fn order_items(items: Seq<AstOrderByItemV>) -> Seq<OrderByItemV> {
    Seq::new(items.len(), |i: int| order_item(items[i]))
}

fn generate_scan(alias: &String) -> (r: Arc<LogicalPlan>)
    ensures
        (*r)@ == scan_plan(alias@),
{
    Arc::new(LogicalPlan::Scan(Scan { table_alias: alias.clone(), table_name: None }))
}

fn make_node(alias: &String, down_connection: Option<String>) -> (r: Arc<LogicalPlan>)
    ensures
        (*r)@ == node_plan(alias@, opt_view(down_connection)),
{
    let scan = generate_scan(alias);
    Arc::new(
        LogicalPlan::GraphNode(GraphNode { input: scan, alias: alias.clone(), down_connection }),
    )
}

fn make_rel(
    left: Arc<LogicalPlan>,
    right: Arc<LogicalPlan>,
    alias: &String,
    direction: Direction,
    left_connection: &String,
    right_connection: &String,
) -> (r: Arc<LogicalPlan>)
    ensures
        (*r)@ == rel_plan(
            (*left)@,
            (*right)@,
            alias@,
            direction,
            left_connection@,
            right_connection@,
        ),
{
    let center = generate_scan(alias);
    Arc::new(
        LogicalPlan::GraphRel(
            GraphRel {
                left,
                center,
                right,
                alias: alias.clone(),
                direction,
                left_connection: left_connection.clone(),
                right_connection: right_connection.clone(),
                is_rel_anchor: false,
            },
        ),
    )
}

fn pattern_properties(props: &Option<Vec<Property>>) -> (r: Vec<Property>)
    ensures
        seq_view(r@) == (match *props {
            Some(p) => seq_view(p@),
            None => Seq::empty(),
        }),
{
    match props {
        Some(p) => clone_properties(p),
        None => {
            let v: Vec<Property> = Vec::new();
            assert(seq_view(v@) =~= Seq::empty());
            v
        },
    }
}

fn node_ctx(n: &NodePattern) -> (r: TableCtx)
    ensures
        r@ == fresh_ctx(n@.label, n@.properties, false, n@.name is Some),
{
    TableCtx::build(
        clone_opt_string(&n.label),
        pattern_properties(&n.properties),
        false,
        n.name.is_some(),
    )
}

fn rel_ctx(r: &RelationshipPattern) -> (c: TableCtx)
    ensures
        c@ == fresh_ctx(r@.label, r@.properties, true, r@.name is Some),
{
    TableCtx::build(
        clone_opt_string(&r.label),
        pattern_properties(&r.properties),
        true,
        r.name.is_some(),
    )
}

fn merge_into(plan_ctx: &mut PlanCtx, alias: &String, n: &NodePattern) -> (found: bool)
    ensures
        found == old(plan_ctx)@.contains(alias@),
        final(plan_ctx)@ == merged(old(plan_ctx)@, alias@, n@.label, n@.properties),
{
    proof {
        if old(plan_ctx)@.contains(alias@) {
            crate::assoc::lemma_has_key_first(old(plan_ctx)@.entries, alias@);
        }
    }
    match plan_ctx.get_mut_table_ctx_opt(alias.as_str()) {
        Some(table_ctx) => {
            match &n.label {
                Some(l) => {
                    table_ctx.set_label(Some(l.clone()));
                },
                None => {},
            }
            let props = pattern_properties(&n.properties);
            if props.len() > 0 {
                table_ctx.append_properties(props);
            }
            true
        },
        None => false,
    }
}

fn pick_alias(name: &Option<String>, fresh: &String) -> (r: String)
    ensures
        r@ == alias_or(opt_view(*name), fresh@),
{
    match name {
        Some(n) => n.clone(),
        None => fresh.clone(),
    }
}

/// The outcome of a building step as contracts see it.
pub open spec fn step_view(r: Result<Arc<LogicalPlan>, LogicalPlanError>, ctx_after: PlanCtxV) -> Result<
    (PlanV, PlanCtxV),
    LogicalPlanError,
> {
    match r {
        Ok(p) => Ok(((*p)@, ctx_after)),
        Err(e) => Err(e),
    }
}

/// Adds one `(start)-[rel]-(end)` to the plan and the context.
pub fn connect_pattern(
    cp: &ConnectedPattern,
    plan: Arc<LogicalPlan>,
    plan_ctx: &mut PlanCtx,
    first_path: bool,
    start_id: &String,
    rel_id: &String,
    end_id: &String,
) -> (r: Result<Arc<LogicalPlan>, LogicalPlanError>)
    ensures
        step_view(r, final(plan_ctx)@) == connect(
            cp@,
            (*plan)@,
            old(plan_ctx)@,
            first_path,
            start_id@,
            rel_id@,
            end_id@,
        ),
{
    let s = pick_alias(&cp.start_node.name, start_id);
    let r = pick_alias(&cp.relationship.name, rel_id);
    let e = pick_alias(&cp.end_node.name, end_id);
    let direction = cp.relationship.direction;
    if merge_into(plan_ctx, &s, &cp.start_node) {
        plan_ctx.insert_table_ctx(e.clone(), node_ctx(&cp.end_node));
        plan_ctx.insert_table_ctx(r.clone(), rel_ctx(&cp.relationship));
        let left = make_node(&e, Some(r.clone()));
        Ok(make_rel(left, plan, &r, direction, &e, &s))
    } else if merge_into(plan_ctx, &e, &cp.end_node) {
        plan_ctx.insert_table_ctx(s.clone(), node_ctx(&cp.start_node));
        plan_ctx.insert_table_ctx(r.clone(), rel_ctx(&cp.relationship));
        let left = make_node(&s, Some(r.clone()));
        Ok(make_rel(left, plan, &r, direction, &s, &e))
    } else if !first_path {
        Err(LogicalPlanError::DisconnectedPatternFound)
    } else {
        plan_ctx.insert_table_ctx(s.clone(), node_ctx(&cp.start_node));
        plan_ctx.insert_table_ctx(e.clone(), node_ctx(&cp.end_node));
        plan_ctx.insert_table_ctx(r.clone(), rel_ctx(&cp.relationship));
        let left = make_node(&e, Some(r.clone()));
        let right = make_node(&s, None);
        Ok(make_rel(left, right, &r, direction, &e, &s))
    }
}

proof fn lemma_connect_all_err(
    cps: Seq<ConnectedPatternV>,
    plan: PlanV,
    ctx: PlanCtxV,
    first_path: bool,
    ids: Seq<Text>,
    next: int,
    i: int,
)
    requires
        0 <= i < cps.len(),
        connect_all(cps.take(i + 1), plan, ctx, first_path, ids, next) is Err,
    ensures
        connect_all(cps, plan, ctx, first_path, ids, next) == connect_all(
            cps.take(i + 1),
            plan,
            ctx,
            first_path,
            ids,
            next,
        ),
    decreases cps.len() - i,
{
    if i + 1 < cps.len() {
        assert(cps.take(i + 2).drop_last() =~= cps.take(i + 1));
        lemma_connect_all_err(cps, plan, ctx, first_path, ids, next, i + 1);
    } else {
        assert(cps.take(i + 1) =~= cps);
    }
}

proof fn lemma_match_patterns_err(
    s: Seq<PathPatternV>,
    plan: PlanV,
    ctx: PlanCtxV,
    ids: Seq<Text>,
    i: int,
)
    requires
        0 <= i < s.len(),
        match_patterns(s.take(i + 1), plan, ctx, ids) is Err,
    ensures
        match_patterns(s, plan, ctx, ids) == match_patterns(s.take(i + 1), plan, ctx, ids),
    decreases s.len() - i,
{
    if i + 1 < s.len() {
        assert(s.take(i + 2).drop_last() =~= s.take(i + 1));
        lemma_match_patterns_err(s, plan, ctx, ids, i + 1);
    } else {
        assert(s.take(i + 1) =~= s);
    }
}

proof fn lemma_patterns_ids_prefix(s: Seq<PathPatternV>, i: int)
    requires
        0 <= i < s.len(),
    ensures
        patterns_ids(s.take(i)) + pattern_ids(s[i]) <= patterns_ids(s),
    decreases s.len() - i,
{
    assert(s.take(i + 1).drop_last() =~= s.take(i));
    if i + 1 < s.len() {
        lemma_patterns_ids_prefix(s, i + 1);
    } else {
        assert(s.take(i + 1) =~= s);
    }
}

/// Adds a chain of connected patterns, each taking three fresh aliases
/// from `ids`, starting at `next`.
pub fn traverse_connected_pattern(
    connected_patterns: &Vec<ConnectedPattern>,
    plan: Arc<LogicalPlan>,
    plan_ctx: &mut PlanCtx,
    first_path: bool,
    ids: &Vec<String>,
    next: usize,
) -> (r: Result<Arc<LogicalPlan>, LogicalPlanError>)
    requires
        next + 3 * connected_patterns@.len() <= ids@.len(),
    ensures
        step_view(r, final(plan_ctx)@) == connect_all(
            seq_view(connected_patterns@),
            (*plan)@,
            old(plan_ctx)@,
            first_path,
            seq_view(ids@),
            next as int,
        ),
{
    let total = ids.len();
    let ghost start_plan = (*plan)@;
    let mut current = plan;
    let mut i: usize = 0;
    let ghost cps = seq_view(connected_patterns@);
    let ghost idv = seq_view(ids@);
    assert(cps.take(0) =~= Seq::empty());
    while i < connected_patterns.len()
        invariant
            i <= connected_patterns.len(),
            cps == seq_view(connected_patterns@),
            idv == seq_view(ids@),
            total == ids@.len(),
            next + 3 * connected_patterns@.len() <= ids@.len(),
            start_plan == (*plan)@,
            connect_all(cps.take(i as int), start_plan, old(plan_ctx)@, first_path, idv, next as int)
                == Ok::<(PlanV, PlanCtxV), LogicalPlanError>(((*current)@, plan_ctx@)),
        decreases connected_patterns.len() - i,
    {
        proof {
            assert(cps.take(i + 1).drop_last() =~= cps.take(i as int));
            assert(cps.take(i + 1).last() == connected_patterns@[i as int]@);
        }
        let at = next + 3 * i;
        match connect_pattern(
            &connected_patterns[i],
            current,
            plan_ctx,
            first_path,
            &ids[at],
            &ids[at + 1],
            &ids[at + 2],
        ) {
            Ok(p) => {
                current = p;
            },
            Err(e) => {
                proof {
                    assert(connect_all(
                        cps.take(i + 1),
                        start_plan,
                        old(plan_ctx)@,
                        first_path,
                        idv,
                        next as int,
                    ) == Err::<(PlanV, PlanCtxV), LogicalPlanError>(e));
                    lemma_connect_all_err(
                        cps,
                        start_plan,
                        old(plan_ctx)@,
                        first_path,
                        idv,
                        next as int,
                        i as int,
                    );
                }
                return Err(e);
            },
        }
        i += 1;
    }
    assert(cps.take(connected_patterns.len() as int) =~= cps);
    Ok(current)
}

/// Adds a standalone node to the plan and the context.
pub fn traverse_node_pattern(
    node_pattern: &NodePattern,
    plan: Arc<LogicalPlan>,
    plan_ctx: &mut PlanCtx,
) -> (r: Result<Arc<LogicalPlan>, LogicalPlanError>)
    ensures
        step_view(r, final(plan_ctx)@) == standalone(node_pattern@, (*plan)@, old(plan_ctx)@),
{
    let alias = match &node_pattern.name {
        Some(n) => n.clone(),
        None => {
            return Err(LogicalPlanError::EmptyNode);
        },
    };
    if merge_into(plan_ctx, &alias, node_pattern) {
        Ok(plan)
    } else {
        plan_ctx.insert_table_ctx(
            alias.clone(),
            TableCtx::build(
                clone_opt_string(&node_pattern.label),
                pattern_properties(&node_pattern.properties),
                false,
                true,
            ),
        );
        Ok(make_node(&alias, None))
    }
}

/// The equality predicates of inline properties.
pub fn convert_properties(props: Vec<Property>) -> (r: Vec<PlanExpr>)
    ensures
        seq_view(r@) == property_filters(seq_view(props@)),
{
    let mut out: Vec<PlanExpr> = Vec::new();
    let mut i: usize = 0;
    let ghost s = seq_view(props@);
    assert(s.take(0) =~= Seq::empty());
    assert(seq_view(out@) =~= Seq::empty());
    while i < props.len()
        invariant
            i <= props.len(),
            s == seq_view(props@),
            seq_view(out@) == property_filters(s.take(i as int)),
        decreases props.len() - i,
    {
        proof {
            assert(s.take(i + 1).drop_last() =~= s.take(i as int));
            assert(s.take(i + 1).last() == props@[i as int]@);
        }
        match &props[i] {
            Property::PropertyKV(kv) => {
                let lhs = PlanExpr::Column(Column(kv.key.clone()));
                let rhs = PlanExpr::Literal(kv.value.deep_clone());
                let operands = vec![lhs, rhs];
                assert(seq_view(operands@) =~= seq![lhs@, rhs@]);
                let e = PlanExpr::OperatorApplicationExp(
                    OperatorApplication { operator: Operator::Equal, operands },
                );
                let ghost prev = out@;
                out.push(e);
                assert(seq_view(out@) =~= seq_view(prev).push(e@));
            },
            Property::Param(_) => {},
        }
        i += 1;
    }
    assert(s.take(props.len() as int) =~= s);
    out
}

/// Turns the inline properties of every alias into predicates.
pub fn convert_properties_to_operator_application(plan_ctx: &mut PlanCtx)
    ensures
        final(plan_ctx)@ == properties_converted(old(plan_ctx)@),
{
    let n = plan_ctx.len();
    let mut i: usize = 0;
    let ghost before = old(plan_ctx)@;
    while i < n
        invariant
            i <= n,
            n == before.entries.len(),
            before == old(plan_ctx)@,
            plan_ctx@.last_node == before.last_node,
            plan_ctx@.entries.len() == n,
            forall|j: int|
                0 <= j < i ==> plan_ctx@.entries[j] == (
                    before.entries[j].0,
                    with_property_filters(before.entries[j].1),
                ),
            forall|j: int| i <= j < n ==> plan_ctx@.entries[j] == before.entries[j],
        decreases n - i,
    {
        let table_ctx = plan_ctx.get_mut_table_ctx_at(i);
        let mut extracted = convert_properties(table_ctx.get_and_clear_properties());
        if extracted.len() > 0 {
            table_ctx.set_use_edge_list(true);
        }
        table_ctx.append_filters(&mut extracted);
        i += 1;
    }
    assert(plan_ctx@.entries =~= properties_converted(before).entries);
}

/// The plan and the context of a `MATCH` clause, given the fresh aliases
/// for its anonymous nodes and relationships.
pub fn evaluate_match_clause_with_ids(
    match_clause: &MatchClause,
    plan: Arc<LogicalPlan>,
    plan_ctx: &mut PlanCtx,
    ids: &Vec<String>,
) -> (r: Result<Arc<LogicalPlan>, LogicalPlanError>)
    requires
        patterns_ids(seq_view(match_clause.path_patterns@)) <= ids@.len(),
    ensures
        step_view(r, final(plan_ctx)@) == match_clause_plan(
            seq_view(match_clause.path_patterns@),
            (*plan)@,
            old(plan_ctx)@,
            seq_view(ids@),
        ),
{
    let total = ids.len();
    let patterns = &match_clause.path_patterns;
    let ghost start_plan = (*plan)@;
    let mut current = plan;
    let ghost ps = seq_view(patterns@);
    let ghost idv = seq_view(ids@);
    let mut i: usize = 0;
    let mut next: usize = 0;
    assert(ps.take(0) =~= Seq::empty());
    while i < patterns.len()
        invariant
            i <= patterns.len(),
            ps == seq_view(patterns@),
            idv == seq_view(ids@),
            total == ids@.len(),
            patterns_ids(ps) <= ids@.len(),
            next == patterns_ids(ps.take(i as int)),
            start_plan == (*plan)@,
            ps == seq_view(match_clause.path_patterns@),
            match_patterns(ps.take(i as int), start_plan, old(plan_ctx)@, idv) == Ok::<
                (PlanV, PlanCtxV),
                LogicalPlanError,
            >(((*current)@, plan_ctx@)),
        decreases patterns.len() - i,
    {
        proof {
            assert(ps.take(i + 1).drop_last() =~= ps.take(i as int));
            assert(ps.take(i + 1).last() == patterns@[i as int]@);
            lemma_patterns_ids_prefix(ps, i as int);
        }
        let step = match &patterns[i] {
            PathPattern::Node(node_pattern) => traverse_node_pattern(
                node_pattern,
                current,
                plan_ctx,
            ),
            PathPattern::ConnectedPattern(connected_patterns) => {
                let r = traverse_connected_pattern(
                    connected_patterns,
                    current,
                    plan_ctx,
                    i == 0,
                    ids,
                    next,
                );
                next = next + 3 * connected_patterns.len();
                r
            },
        };
        match step {
            Ok(p) => {
                current = p;
            },
            Err(e) => {
                proof {
                    assert(match_patterns(ps.take(i + 1), start_plan, old(plan_ctx)@, idv) == Err::<
                        (PlanV, PlanCtxV),
                        LogicalPlanError,
                    >(e));
                    lemma_match_patterns_err(ps, start_plan, old(plan_ctx)@, idv, i as int);
                }
                return Err(e);
            },
        }
        i += 1;
    }
    assert(ps.take(patterns.len() as int) =~= ps);
    convert_properties_to_operator_application(plan_ctx);
    Ok(current)
}

/// `true` when `r` and `ctx_after` are what the clause gives for the fresh
/// aliases `ids`.
pub open spec fn is_match_outcome(
    patterns: Seq<PathPatternV>,
    plan: PlanV,
    ctx: PlanCtxV,
    ids: Seq<Text>,
    r: Result<Arc<LogicalPlan>, LogicalPlanError>,
    ctx_after: PlanCtxV,
) -> bool {
    &&& ids.len() == patterns_ids(patterns)
    &&& forall|i: int| 0 <= i < ids.len() ==> is_generated_alias(#[trigger] ids[i])
    &&& step_view(r, ctx_after) == match_clause_plan(patterns, plan, ctx, ids)
}

fn draw_pattern_ids(patterns: &Vec<PathPattern>) -> (ids: Vec<String>)
    ensures
        ids@.len() == patterns_ids(seq_view(patterns@)),
        forall|i: int| 0 <= i < ids@.len() ==> is_generated_alias(#[trigger] ids@[i]@),
{
    let mut ids: Vec<String> = Vec::new();
    let mut i: usize = 0;
    let ghost ps = seq_view(patterns@);
    assert(ps.take(0) =~= Seq::empty());
    while i < patterns.len()
        invariant
            i <= patterns.len(),
            ps == seq_view(patterns@),
            ids@.len() == patterns_ids(ps.take(i as int)),
            forall|k: int| 0 <= k < ids@.len() ==> is_generated_alias(#[trigger] ids@[k]@),
        decreases patterns.len() - i,
    {
        proof {
            assert(ps.take(i + 1).drop_last() =~= ps.take(i as int));
            assert(ps.take(i + 1).last() == patterns@[i as int]@);
        }
        match &patterns[i] {
            PathPattern::Node(_) => {},
            PathPattern::ConnectedPattern(cps) => {
                let mut k: usize = 0;
                let ghost base = ids@.len();
                while k < cps.len()
                    invariant
                        k <= cps.len(),
                        ids@.len() == base + 3 * k,
                        forall|j: int|
                            0 <= j < ids@.len() ==> is_generated_alias(#[trigger] ids@[j]@),
                    decreases cps.len() - k,
                {
                    ids.push(generate_id());
                    ids.push(generate_id());
                    ids.push(generate_id());
                    k += 1;
                }
            },
        }
        i += 1;
    }
    assert(ps.take(patterns.len() as int) =~= ps);
    ids
}

/// The plan and the context of a `MATCH` clause. The aliases of anonymous
/// nodes and relationships are drawn at random: the outcome is what the
/// clause gives for some aliases of the generated form.
pub fn evaluate_match_clause(
    match_clause: &MatchClause,
    plan: Arc<LogicalPlan>,
    plan_ctx: &mut PlanCtx,
) -> (r: Result<Arc<LogicalPlan>, LogicalPlanError>)
    ensures
        exists|ids: Seq<Text>| #[trigger]
            is_match_outcome(
                seq_view(match_clause.path_patterns@),
                (*plan)@,
                old(plan_ctx)@,
                ids,
                r,
                final(plan_ctx)@,
            ),
{
    let ids = draw_pattern_ids(&match_clause.path_patterns);
    let r = evaluate_match_clause_with_ids(match_clause, plan, plan_ctx, &ids);
    assert(is_match_outcome(
        seq_view(match_clause.path_patterns@),
        (*plan)@,
        old(plan_ctx)@,
        seq_view(ids@),
        r,
        plan_ctx@,
    ));
    r
}

/// The plan under the filter of a `WHERE` clause.
pub fn evaluate_where_clause(where_clause: &WhereClause, plan: Arc<LogicalPlan>) -> (r: Arc<
    LogicalPlan,
>)
    ensures
        (*r)@ == (PlanV::Filter {
            input: Box::new((*plan)@),
            predicate: plan_expr(where_clause.conditions@),
        }),
{
    Arc::new(
        LogicalPlan::Filter(
            Filter { input: plan, predicate: convert_expr(&where_clause.conditions) },
        ),
    )
}

/// The plan under the projection of a `RETURN` clause.
pub fn evaluate_return_clause(return_clause: &ReturnClause, plan: Arc<LogicalPlan>) -> (r: Arc<
    LogicalPlan,
>)
    ensures
        (*r)@ == (PlanV::Projection {
            input: Box::new((*plan)@),
            items: projection_items(seq_view(return_clause.return_items@)),
        }),
{
    let items = &return_clause.return_items;
    let mut out: Vec<ProjectionItem> = Vec::new();
    let mut i: usize = 0;
    while i < items.len()
        invariant
            i <= items.len(),
            out@.len() == i,
            forall|j: int| 0 <= j < i ==> (#[trigger] out@[j])@ == projection_item(items@[j]@),
        decreases items.len() - i,
    {
        let item = ProjectionItem {
            expression: convert_expr(&items[i].expression),
            col_alias: match &items[i].alias {
                Some(a) => Some(ColumnAlias(a.clone())),
                None => None,
            },
        };
        out.push(item);
        i += 1;
    }
    assert(seq_view(out@) =~= projection_items(seq_view(items@)));
    Arc::new(LogicalPlan::Projection(Projection { input: plan, items: out }))
}

/// The plan under the ordering of an `ORDER BY` clause.
pub fn evaluate_order_by_clause(order_by_clause: &OrderByClause, plan: Arc<LogicalPlan>) -> (r:
    Arc<LogicalPlan>)
    ensures
        (*r)@ == (PlanV::OrderBy {
            input: Box::new((*plan)@),
            items: order_items(seq_view(order_by_clause.order_by_items@)),
        }),
{
    let items = &order_by_clause.order_by_items;
    let mut out: Vec<OrderByItem> = Vec::new();
    let mut i: usize = 0;
    while i < items.len()
        invariant
            i <= items.len(),
            out@.len() == i,
            forall|j: int| 0 <= j < i ==> (#[trigger] out@[j])@ == order_item(items@[j]@),
        decreases items.len() - i,
    {
        let expression = match &items[i].expression {
            Expression::Variable(v) => PlanExpr::ColumnAlias(ColumnAlias(v.clone())),
            other => convert_expr(other),
        };
        let order = match items[i].order {
            OrerByOrder::Asc => OrderByOrder::Asc,
            OrerByOrder::Desc => OrderByOrder::Desc,
        };
        out.push(OrderByItem { expression, order });
        i += 1;
    }
    assert(seq_view(out@) =~= order_items(seq_view(items@)));
    Arc::new(LogicalPlan::OrderBy(OrderBy { input: plan, items: out }))
}

/// The plan under a `SKIP`.
pub fn evaluate_skip_clause(skip_clause: &SkipClause, plan: Arc<LogicalPlan>) -> (r: Arc<
    LogicalPlan,
>)
    ensures
        (*r)@ == (PlanV::Skip { input: Box::new((*plan)@), count: skip_clause.skip_item }),
{
    Arc::new(LogicalPlan::Skip(Skip { input: plan, count: skip_clause.skip_item }))
}

/// The plan under a `LIMIT`.
pub fn evaluate_limit_clause(limit_clause: &LimitClause, plan: Arc<LogicalPlan>) -> (r: Arc<
    LogicalPlan,
>)
    ensures
        (*r)@ == (PlanV::Limit { input: Box::new((*plan)@), count: limit_clause.limit_item }),
{
    Arc::new(LogicalPlan::Limit(Limit { input: plan, count: limit_clause.limit_item }))
}

/// The plan after the clauses that follow `MATCH`: `WHERE`, `RETURN`,
/// `ORDER BY`, `SKIP`, `LIMIT`, each wrapping the plan so far.
pub open spec fn wrapped(ast: OpenCypherQueryAst, p: PlanV) -> PlanV {
    let filtered = match ast.where_clause {
        Some(w) => PlanV::Filter { input: Box::new(p), predicate: plan_expr(w.conditions@) },
        None => p,
    };
    let projected = match ast.return_clause {
        Some(r) => PlanV::Projection {
            input: Box::new(filtered),
            items: projection_items(seq_view(r.return_items@)),
        },
        None => filtered,
    };
    let ordered = match ast.order_by_clause {
        Some(o) => PlanV::OrderBy {
            input: Box::new(projected),
            items: order_items(seq_view(o.order_by_items@)),
        },
        None => projected,
    };
    let skipped = match ast.skip_clause {
        Some(s) => PlanV::Skip { input: Box::new(ordered), count: s.skip_item },
        None => ordered,
    };
    match ast.limit_clause {
        Some(l) => PlanV::Limit { input: Box::new(skipped), count: l.limit_item },
        None => skipped,
    }
}

/// The path patterns of the `MATCH` clause of a query; none without one.
pub open spec fn query_patterns(ast: OpenCypherQueryAst) -> Seq<PathPatternV> {
    match ast.match_clause {
        Some(m) => seq_view(m.path_patterns@),
        None => Seq::empty(),
    }
}

/// The logical plan and the context of a query, given the fresh aliases
/// for its anonymous nodes and relationships.
pub open spec fn built_plan(ast: OpenCypherQueryAst, ids: Seq<Text>) -> Result<
    (PlanV, PlanCtxV),
    LogicalPlanError,
> {
    match ast.match_clause {
        Some(m) => match match_clause_plan(
            seq_view(m.path_patterns@),
            PlanV::Empty,
            PlanCtxV::empty(),
            ids,
        ) {
            Err(e) => Err(e),
            Ok((p, c)) => Ok((wrapped(ast, p), c)),
        },
        None => Ok((wrapped(ast, PlanV::Empty), PlanCtxV::empty())),
    }
}

/// The outcome of building as contracts see it.
pub open spec fn built_view(r: Result<(Arc<LogicalPlan>, PlanCtx), LogicalPlanError>) -> Result<
    (PlanV, PlanCtxV),
    LogicalPlanError,
> {
    match r {
        Ok((p, c)) => Ok(((*p)@, c@)),
        Err(e) => Err(e),
    }
}

/// `true` when `r` is what building gives for the fresh aliases `ids`.
pub open spec fn is_built(
    ast: OpenCypherQueryAst,
    ids: Seq<Text>,
    r: Result<(Arc<LogicalPlan>, PlanCtx), LogicalPlanError>,
) -> bool {
    &&& ids.len() == patterns_ids(query_patterns(ast))
    &&& forall|i: int| 0 <= i < ids.len() ==> is_generated_alias(#[trigger] ids[i])
    &&& built_view(r) == built_plan(ast, ids)
}

fn wrap_clauses(query_ast: &OpenCypherQueryAst, plan: Arc<LogicalPlan>) -> (r: Arc<LogicalPlan>)
    ensures
        (*r)@ == wrapped(*query_ast, (*plan)@),
{
    let plan = match &query_ast.where_clause {
        Some(w) => evaluate_where_clause(w, plan),
        None => plan,
    };
    let plan = match &query_ast.return_clause {
        Some(r) => evaluate_return_clause(r, plan),
        None => plan,
    };
    let plan = match &query_ast.order_by_clause {
        Some(o) => evaluate_order_by_clause(o, plan),
        None => plan,
    };
    let plan = match &query_ast.skip_clause {
        Some(s) => evaluate_skip_clause(s, plan),
        None => plan,
    };
    match &query_ast.limit_clause {
        Some(l) => evaluate_limit_clause(l, plan),
        None => plan,
    }
}

/// The logical plan and the context of a query. The aliases of anonymous
/// nodes and relationships are drawn at random: the outcome is what
/// building gives for some aliases of the generated form.
pub fn build_logical_plan(query_ast: &OpenCypherQueryAst) -> (r: Result<
    (Arc<LogicalPlan>, PlanCtx),
    LogicalPlanError,
>)
    ensures
        exists|ids: Seq<Text>| #[trigger] is_built(*query_ast, ids, r),
{
    let mut plan_ctx = PlanCtx::default();
    let plan = Arc::new(LogicalPlan::Empty);
    match &query_ast.match_clause {
        Some(m) => {
            let ids = draw_pattern_ids(&m.path_patterns);
            let r = match evaluate_match_clause_with_ids(m, plan, &mut plan_ctx, &ids) {
                Ok(p) => Ok((wrap_clauses(query_ast, p), plan_ctx)),
                Err(e) => Err(e),
            };
            assert(is_built(*query_ast, seq_view(ids@), r));
            r
        },
        None => {
            let r = Ok((wrap_clauses(query_ast, plan), plan_ctx));
            assert(is_built(*query_ast, Seq::empty(), r));
            r
        },
    }
}

/// The logical plan and the context of a query.
pub fn evaluate_query(query_ast: OpenCypherQueryAst) -> (r: Result<
    (Arc<LogicalPlan>, PlanCtx),
    LogicalPlanError,
>)
    ensures
        exists|ids: Seq<Text>| #[trigger] is_built(query_ast, ids, r),
{
    build_logical_plan(&query_ast)
}

} // verus!
