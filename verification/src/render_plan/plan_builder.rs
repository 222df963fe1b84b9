//! Reduction of a logical plan to a render plan: each clause of the outer
//! query is extracted by a walk of its own, and the CTEs are collected
//! from the relationships of the plan.
use vstd::prelude::*;
use vstd::string::StringExecFns;
use crate::analyzer::graph_join_inference::{sort_by_on_len, sort_joins};
use crate::errors::RenderBuildError;
use crate::expr::{
    clone_exprs, lemma_expr_view, AggregateFnCall, Column, ColumnAlias, ExprV, FnCallV, OpAppV,
    Operator, OperatorApplication, PlanExpr, ScalarFnCall,
};
use crate::logical_plan::{
    clone_joins, clone_order_items, lemma_union_view, Join, JoinV, LogicalPlan, OrderByItem,
    OrderByItemV, PlanV, ProjectionItem, ProjectionItemV,
};
use crate::render_plan::{
    lemma_render_plan_view, Cte, CteItems, CteV, FilterItems, FromTable, FromTableItem,
    FromTableV, GroupByExpressions, JoinItems, LimitItem, OrderByItems, RenderPlan, RenderPlanV,
    SelectItem, SelectItemV, SelectItems, SkipItem, UnionItems,
};
use crate::views::{ opt_view, seq_view, Text};

verus! {

broadcast use lemma_expr_view, lemma_union_view, lemma_render_plan_view;

/// The select item that a projection item becomes.
pub open spec fn select_item(item: ProjectionItemV) -> SelectItemV {
    SelectItemV { expression: item.expression, col_alias: item.col_alias }
}

/// The select items of a list of projection items.
pub open spec fn select_items_of(items: Seq<ProjectionItemV>) -> Seq<SelectItemV> {
    Seq::new(items.len(), |i: int| select_item(items[i]))
}

/// The items of the first projection on the way down; of a relationship,
/// those of its three children.
pub open spec fn select_items(p: PlanV) -> Seq<SelectItemV>
    decreases p,
{
    match p {
        PlanV::Empty => Seq::empty(),
        PlanV::Scan { .. } => Seq::empty(),
        PlanV::Union { .. } => Seq::empty(),
        PlanV::GraphRel { left, center, right, .. } => select_items(*left) + select_items(*center)
            + select_items(*right),
        PlanV::Projection { items, .. } => select_items_of(items),
        _ => select_items(p.input()),
    }
}

/// The first of the two options that holds a value.
pub open spec fn first_some<T>(a: Option<T>, b: Option<T>) -> Option<T> {
    if a is Some {
        a
    } else {
        b
    }
}

/// The table of the first scan on the way down, left child first.
pub open spec fn from_table(p: PlanV) -> Option<FromTableV>
    decreases p,
{
    match p {
        PlanV::Empty => None,
        PlanV::Union { .. } => None,
        PlanV::Scan { table_alias, table_name } => Some(
            FromTableV {
                table_name: match table_name {
                    Some(n) => n,
                    None => table_alias,
                },
                table_alias: Some(table_alias),
            },
        ),
        PlanV::GraphRel { left, center, right, .. } => first_some(
            from_table(*left),
            first_some(from_table(*center), from_table(*right)),
        ),
        _ => from_table(p.input()),
    }
}

/// The predicate of the first filter on the way down, left child first.
pub open spec fn filters(p: PlanV) -> Option<ExprV>
    decreases p,
{
    match p {
        PlanV::Empty => None,
        PlanV::Scan { .. } => None,
        PlanV::Union { .. } => None,
        PlanV::Filter { predicate, .. } => Some(predicate),
        PlanV::GraphRel { left, center, right, .. } => first_some(
            filters(*left),
            first_some(filters(*center), filters(*right)),
        ),
        _ => filters(p.input()),
    }
}

/// The predicate of the filter of the outer query: the first filter that
/// is met before any graph node, relationship or CTE.
pub open spec fn final_filters(p: PlanV) -> Option<ExprV>
    decreases p,
{
    match p {
        PlanV::Filter { predicate, .. } => Some(predicate),
        PlanV::Projection { input, .. } => final_filters(*input),
        PlanV::GroupBy { input, .. } => final_filters(*input),
        PlanV::OrderBy { input, .. } => final_filters(*input),
        PlanV::Skip { input, .. } => final_filters(*input),
        PlanV::Limit { input, .. } => final_filters(*input),
        PlanV::GraphJoins { input, .. } => final_filters(*input),
        _ => None,
    }
}

/// The joins of the first `GraphJoins` on the way down.
pub open spec fn joins(p: PlanV) -> Seq<JoinV>
    decreases p,
{
    match p {
        PlanV::Empty => Seq::empty(),
        PlanV::Scan { .. } => Seq::empty(),
        PlanV::Union { .. } => Seq::empty(),
        PlanV::GraphJoins { joins, .. } => joins,
        PlanV::GraphRel { left, center, right, .. } => joins(*left) + joins(*center) + joins(
            *right,
        ),
        _ => joins(p.input()),
    }
}

/// The expressions of the first `GroupBy` on the way down.
pub open spec fn group_by(p: PlanV) -> Seq<ExprV>
    decreases p,
{
    match p {
        PlanV::Empty => Seq::empty(),
        PlanV::Scan { .. } => Seq::empty(),
        PlanV::Union { .. } => Seq::empty(),
        PlanV::GroupBy { expressions, .. } => expressions,
        PlanV::GraphRel { left, center, right, .. } => group_by(*left) + group_by(*center)
            + group_by(*right),
        _ => group_by(p.input()),
    }
}

/// The items of the first `OrderBy` on the way down.
pub open spec fn order_by(p: PlanV) -> Seq<OrderByItemV>
    decreases p,
{
    match p {
        PlanV::Empty => Seq::empty(),
        PlanV::Scan { .. } => Seq::empty(),
        PlanV::Union { .. } => Seq::empty(),
        PlanV::OrderBy { items, .. } => items,
        PlanV::GraphRel { left, center, right, .. } => order_by(*left) + order_by(*center)
            + order_by(*right),
        _ => order_by(p.input()),
    }
}

/// The count of the first `Limit` on the way down.
pub open spec fn limit(p: PlanV) -> Option<i64>
    decreases p,
{
    match p {
        PlanV::Empty => None,
        PlanV::Scan { .. } => None,
        PlanV::Union { .. } => None,
        PlanV::Limit { count, .. } => Some(count),
        PlanV::GraphRel { left, center, right, .. } => first_some(
            limit(*left),
            first_some(limit(*center), limit(*right)),
        ),
        _ => limit(p.input()),
    }
}

/// The count of the first `Skip` on the way down.
pub open spec fn skip(p: PlanV) -> Option<i64>
    decreases p,
{
    match p {
        PlanV::Empty => None,
        PlanV::Scan { .. } => None,
        PlanV::Union { .. } => None,
        PlanV::Skip { count, .. } => Some(count),
        PlanV::GraphRel { left, center, right, .. } => first_some(
            skip(*left),
            first_some(skip(*center), skip(*right)),
        ),
        _ => skip(p.input()),
    }
}

/// A render plan of a select list, a table and a filter, and nothing else.
pub open spec fn simple_plan(
    select: Seq<SelectItemV>,
    from: Option<FromTableV>,
    filters: Option<ExprV>,
) -> RenderPlanV {
    RenderPlanV {
        ctes: Seq::empty(),
        select,
        from,
        joins: Seq::empty(),
        filters,
        group_by: Seq::empty(),
        order_by: Seq::empty(),
        limit: None,
        skip: None,
        union: Seq::empty(),
    }
}

/// A select item of a CTE body: `alias.column` loses its alias.
pub open spec fn cte_select_item(item: SelectItemV) -> SelectItemV {
    match item.expression {
        ExprV::PropertyAccess(pa) => SelectItemV {
            expression: ExprV::Column(pa.column),
            col_alias: None,
        },
        _ => item,
    }
}

pub open spec fn cte_select(items: Seq<SelectItemV>) -> Seq<SelectItemV> {
    Seq::new(items.len(), |i: int| cte_select_item(items[i]))
}

/// The body of a CTE that reads one table.
pub open spec fn branch_plan(p: PlanV) -> Result<RenderPlanV, RenderBuildError> {
    let select = select_items(p);
    if select.len() == 0 {
        Err(RenderBuildError::MissingSelectItems)
    } else {
        match from_table(p) {
            None => Err(RenderBuildError::MissingFromTable),
            Some(f) => Ok(
                simple_plan(
                    cte_select(select),
                    Some(FromTableV { table_name: f.table_name, table_alias: None }),
                    filters(p),
                ),
            ),
        }
    }
}

/// The bodies of the branches of a union.
pub open spec fn branch_plans(s: Seq<PlanV>) -> Result<Seq<RenderPlanV>, RenderBuildError>
    decreases s.len(),
{
    if s.len() == 0 {
        Ok(Seq::empty())
    } else {
        match branch_plans(s.drop_last()) {
            Err(e) => Err(e),
            Ok(plans) => match branch_plan(s.last()) {
                Err(e) => Err(e),
                Ok(plan) => Ok(plans.push(plan)),
            },
        }
    }
}

/// The body of a CTE: the union of its branches for a union, else the
/// read of one table.
pub open spec fn cte_plan(input: PlanV) -> Result<RenderPlanV, RenderBuildError> {
    match input {
        PlanV::Union { inputs } => match branch_plans(inputs) {
            Err(e) => Err(e),
            Ok(plans) => Ok(RenderPlanV { union: plans, ..simple_plan(Seq::empty(), None, None) }),
        },
        _ => branch_plan(input),
    }
}

/// The alias of the first graph node on the way down; none where a
/// relationship, a union or a leaf comes before any.
pub open spec fn node_alias(p: PlanV) -> Option<Text>
    decreases p,
{
    match p {
        PlanV::Empty => None,
        PlanV::Scan { .. } => None,
        PlanV::Union { .. } => None,
        PlanV::GraphRel { .. } => None,
        PlanV::GraphNode { alias, .. } => Some(alias),
        _ => node_alias(p.input()),
    }
}

/// The CTEs of a plan but those of the node that the outer query reads
/// directly. Of a relationship the right child comes first, then the
/// center, then the left.
///
/// What belongs to the node of `last_node_alias` is left out: the left
/// child of a relationship whose left connection it is, what stands under
/// its graph node, and a CTE over its graph node.
pub open spec fn ctes(p: PlanV, last_node_alias: Text) -> Result<Seq<CteV>, RenderBuildError>
    decreases p,
{
    match p {
        PlanV::Empty => Ok(Seq::empty()),
        PlanV::Scan { .. } => Ok(Seq::empty()),
        PlanV::Union { .. } => Ok(Seq::empty()),
        PlanV::GraphNode { input, alias, .. } => if alias == last_node_alias {
            Ok(Seq::empty())
        } else {
            ctes(*input, last_node_alias)
        },
        PlanV::GraphRel { left, center, right, left_connection, .. } => match ctes(
            *right,
            last_node_alias,
        ) {
            Err(e) => Err(e),
            Ok(r) => match ctes(*center, last_node_alias) {
                Err(e) => Err(e),
                Ok(c) => if left_connection != last_node_alias {
                    match ctes(*left, last_node_alias) {
                        Err(e) => Err(e),
                        Ok(l) => Ok(r + c + l),
                    }
                } else {
                    Ok(r + c)
                },
            },
        },
        PlanV::Cte { input, name } => if node_alias(*input) == Some(last_node_alias) {
            Ok(Seq::empty())
        } else {
            match cte_plan(*input) {
                Err(e) => Err(e),
                Ok(plan) => Ok(seq![CteV { name, plan: Box::new(plan) }]),
            }
        },
        _ => ctes(p.input(), last_node_alias),
    }
}

/// The CTE of the node that the outer query reads directly: the first CTE
/// on the way down, left child before right, that has select items and a
/// table.
pub open spec fn last_node_cte(p: PlanV) -> Option<CteV>
    decreases p,
{
    match p {
        PlanV::Empty => None,
        PlanV::Scan { .. } => None,
        PlanV::Union { .. } => None,
        PlanV::GraphRel { left, right, .. } => first_some(
            last_node_cte(*left),
            last_node_cte(*right),
        ),
        PlanV::Cte { input, name } => {
            let select = select_items(*input);
            if select.len() == 0 {
                None
            } else {
                match from_table(*input) {
                    None => None,
                    Some(f) => Some(
                        CteV {
                            name,
                            plan: Box::new(simple_plan(select, Some(f), filters(*input))),
                        },
                    ),
                }
            }
        },
        _ => last_node_cte(p.input()),
    }
}

/// The alias of the node that the outer query reads directly: that of the
/// graph node under the CTE that `last_node_cte` finds, else that of the
/// nearest graph node above it. None where the plan has no such CTE, or
/// the CTE belongs to no graph node.
pub open spec fn last_node_alias(p: PlanV) -> Option<Text>
    decreases p,
{
    match p {
        PlanV::Empty => None,
        PlanV::Scan { .. } => None,
        PlanV::Union { .. } => None,
        PlanV::GraphNode { input, alias, .. } => if last_node_cte(*input) is Some {
            first_some(last_node_alias(*input), Some(alias))
        } else {
            None
        },
        PlanV::GraphRel { left, right, .. } => if last_node_cte(*left) is Some {
            last_node_alias(*left)
        } else {
            last_node_alias(*right)
        },
        PlanV::Cte { input, .. } => if last_node_cte(p) is Some {
            node_alias(*input)
        } else {
            None
        },
        _ => last_node_alias(p.input()),
    }
}

/// `true` for the operators whose lone operand can stand in their place.
pub open spec fn is_connective(o: Operator) -> bool {
    o == Operator::And || o == Operator::Or
}

/// The filter of the node that the outer query reads directly, without the
/// `IN` subqueries that tie it to a CTE.
///
/// - An operator, a list or a call whose operands are all gone is gone.
/// - An `AND` or an `OR` that lost all operands but one gives way to the
///   one that is left.
/// - Anything else stays around what is left of its operands: `NOT x`
///   stays `NOT x`.
pub open spec fn clean_filters(e: ExprV) -> Option<ExprV>
    decreases e,
{
    match e {
        ExprV::InSubquery(_) => None,
        ExprV::OperatorApplication(op) => {
            let kept = clean_all(op.operands);
            if kept.len() == 0 && op.operands.len() > 0 {
                None
            } else if is_connective(op.operator) && kept.len() == 1 && op.operands.len() > 1 {
                Some(kept[0])
            } else {
                Some(ExprV::OperatorApplication(OpAppV { operator: op.operator, operands: kept }))
            }
        },
        ExprV::List(s) => {
            let kept = clean_all(s);
            if kept.len() == 0 && s.len() > 0 {
                None
            } else {
                Some(ExprV::List(kept))
            }
        },
        ExprV::AggregateFnCall(f) => {
            let kept = clean_all(f.args);
            if kept.len() == 0 && f.args.len() > 0 {
                None
            } else {
                Some(ExprV::AggregateFnCall(FnCallV { name: f.name, args: kept }))
            }
        },
        ExprV::ScalarFnCall(f) => {
            let kept = clean_all(f.args);
            if kept.len() == 0 && f.args.len() > 0 {
                None
            } else {
                Some(ExprV::ScalarFnCall(FnCallV { name: f.name, args: kept }))
            }
        },
        other => Some(other),
    }
}

pub open spec fn clean_all(s: Seq<ExprV>) -> Seq<ExprV>
    decreases s,
{
    if s.len() == 0 {
        Seq::empty()
    } else {
        match clean_filters(s.last()) {
            Some(e) => clean_all(s.drop_last()).push(e),
            None => clean_all(s.drop_last()),
        }
    }
}

/// The conjunction `outer AND anchor` of the two filters, or the one that
/// is there.
pub open spec fn combined_filters(outer: Option<ExprV>, anchor: Option<ExprV>) -> Option<ExprV> {
    match (outer, anchor) {
        (Some(a), Some(b)) => Some(
            ExprV::OperatorApplication(OpAppV { operator: Operator::And, operands: seq![a, b] }),
        ),
        (Some(a), None) => Some(a),
        (None, b) => b,
    }
}

/// The outer query over the given CTEs, table and filter.
pub open spec fn finished(
    p: PlanV,
    ctes: Seq<CteV>,
    from: Option<FromTableV>,
    filters: Option<ExprV>,
) -> Result<RenderPlanV, RenderBuildError> {
    let select = select_items(p);
    if select.len() == 0 {
        Err(RenderBuildError::MissingSelectItems)
    } else {
        Ok(
            RenderPlanV {
                ctes,
                select,
                from,
                joins: sort_joins(joins(p)),
                filters,
                group_by: group_by(p),
                order_by: order_by(p),
                limit: limit(p),
                skip: skip(p),
                union: Seq::empty(),
            },
        )
    }
}

/// The render plan of a logical plan.
///
/// - Where the plan has a CTE for the node that the outer query reads
///   directly, that CTE gives the table and, cleaned of its subqueries,
///   a part of the filter; the CTEs of the other aliases make the CTE
///   list. A CTE that belongs to no graph node is `MalformedCTEName`.
/// - Else the first scan gives the table and the first filter the filter.
/// - The select items are those of the outermost projection; there must
///   be at least one.
/// - The joins are sorted by their number of equalities.
pub open spec fn render_plan(p: PlanV) -> Result<RenderPlanV, RenderBuildError> {
    match last_node_cte(p) {
        Some(cte) => match last_node_alias(p) {
            None => Err(RenderBuildError::MalformedCTEName),
            Some(alias) => match ctes(p, alias) {
                Err(e) => Err(e),
                Ok(list) => finished(
                    p,
                    list,
                    cte.plan.from,
                    combined_filters(
                        final_filters(p),
                        match cte.plan.filters {
                            Some(f) => clean_filters(f),
                            None => None,
                        },
                    ),
                ),
            },
        },
        None => match from_table(p) {
            None => Err(RenderBuildError::MissingFromTable),
            Some(f) => finished(p, Seq::empty(), Some(f), filters(p)),
        },
    }
}

fn make_simple_plan(select: Vec<SelectItem>, from: Option<FromTable>, filters: Option<PlanExpr>) -> (r:
    RenderPlan)
    ensures
        r@ == simple_plan(seq_view(select@), opt_view(from), opt_view(filters)),
{
    let ctes: Vec<Cte> = Vec::new();
    let joins: Vec<Join> = Vec::new();
    let group_by: Vec<PlanExpr> = Vec::new();
    let order_by: Vec<OrderByItem> = Vec::new();
    let union: Vec<RenderPlan> = Vec::new();
    assert(seq_view(ctes@) =~= Seq::empty());
    assert(seq_view(joins@) =~= Seq::empty());
    assert(seq_view(group_by@) =~= Seq::empty());
    assert(seq_view(order_by@) =~= Seq::empty());
    assert(seq_view(union@) =~= Seq::empty());
    RenderPlan {
        ctes: CteItems(ctes),
        select: SelectItems(select),
        from: FromTableItem(from),
        joins: JoinItems(joins),
        filters: FilterItems(filters),
        group_by: GroupByExpressions(group_by),
        order_by: OrderByItems(order_by),
        skip: SkipItem(None),
        limit: LimitItem(None),
        union: UnionItems(union),
    }
}

fn to_select_items(items: &Vec<ProjectionItem>) -> (r: Vec<SelectItem>)
    ensures
        seq_view(r@) == select_items_of(seq_view(items@)),
{
    let mut out: Vec<SelectItem> = Vec::new();
    let mut i: usize = 0;
    while i < items.len()
        invariant
            i <= items.len(),
            out@.len() == i,
            forall|j: int| 0 <= j < i ==> (#[trigger] out@[j])@ == select_item(items@[j]@),
        decreases items.len() - i,
    {
        let item = SelectItem {
            expression: items[i].expression.deep_clone(),
            col_alias: match &items[i].col_alias {
                Some(a) => Some(ColumnAlias(a.0.clone())),
                None => None,
            },
        };
        out.push(item);
        i += 1;
    }
    assert(seq_view(out@) =~= select_items_of(seq_view(items@)));
    out
}

impl SelectItems {
    /// The select list of a projection; any other node has none.
    pub fn build(logical_plan: &LogicalPlan) -> (r: Result<SelectItems, RenderBuildError>)
        ensures
            match logical_plan@ {
                PlanV::Projection { items, .. } => r matches Ok(list) && seq_view(list.0@)
                    == select_items_of(items),
                _ => r == Err::<SelectItems, RenderBuildError>(
                    RenderBuildError::SelectItemsBuilder,
                ),
            },
    {
        match logical_plan {
            LogicalPlan::Projection(projection) => Ok(
                SelectItems(to_select_items(&projection.items)),
            ),
            _ => Err(RenderBuildError::SelectItemsBuilder),
        }
    }
}

fn to_cte_select(items: Vec<SelectItem>) -> (r: Vec<SelectItem>)
    ensures
        seq_view(r@) == cte_select(seq_view(items@)),
{
    let mut out: Vec<SelectItem> = Vec::new();
    let mut i: usize = 0;
    while i < items.len()
        invariant
            i <= items.len(),
            out@.len() == i,
            forall|j: int| 0 <= j < i ==> (#[trigger] out@[j])@ == cte_select_item(items@[j]@),
        decreases items.len() - i,
    {
        let item = match &items[i].expression {
            PlanExpr::PropertyAccessExp(pa) => SelectItem {
                expression: PlanExpr::Column(Column(pa.column.0.clone())),
                col_alias: None,
            },
            other => SelectItem {
                expression: other.deep_clone(),
                col_alias: match &items[i].col_alias {
                    Some(a) => Some(ColumnAlias(a.0.clone())),
                    None => None,
                },
            },
        };
        out.push(item);
        i += 1;
    }
    assert(seq_view(out@) =~= cte_select(seq_view(items@)));
    out
}

fn pick_first<T>(a: Option<T>, b: Option<T>) -> (r: Option<T>)
    ensures
        r == first_some(a, b),
{
    match a {
        Some(x) => Some(x),
        None => b,
    }
}

fn clean_operands(v: &Vec<PlanExpr>) -> (out: Vec<PlanExpr>)
    ensures
        seq_view(out@) == clean_all(seq_view(v@)),
    decreases v,
{
    let mut out: Vec<PlanExpr> = Vec::new();
    let mut i: usize = 0;
    let ghost s = seq_view(v@);
    assert(s.take(0) =~= Seq::empty());
    assert(seq_view(out@) =~= Seq::empty());
    while i < v.len()
        invariant
            i <= v.len(),
            s == seq_view(v@),
            seq_view(out@) == clean_all(s.take(i as int)),
        decreases v.len() - i,
    {
        proof {
            assert(s.take(i + 1).drop_last() =~= s.take(i as int));
            assert(s.take(i + 1).last() == v@[i as int]@);
        }
        match clean_last_node_filters(&v[i]) {
            Some(e) => {
                let ghost prev = out@;
                out.push(e);
                assert(seq_view(out@) =~= seq_view(prev).push(e@));
            },
            None => {},
        }
        i += 1;
    }
    assert(s.take(v.len() as int) =~= s);
    out
}

/// The filter without its `IN` subqueries.
pub fn clean_last_node_filters(filter_expr: &PlanExpr) -> (r: Option<PlanExpr>)
    ensures
        opt_view(r) == clean_filters(filter_expr@),
    decreases filter_expr,
{
    match filter_expr {
        PlanExpr::InSubquery(_) => None,
        PlanExpr::OperatorApplicationExp(op) => {
            let kept = clean_operands(&op.operands);
            let connective = match op.operator {
                Operator::And => true,
                Operator::Or => true,
                _ => false,
            };
            if kept.len() == 0 && op.operands.len() > 0 {
                None
            } else if connective && kept.len() == 1 && op.operands.len() > 1 {
                Some(kept[0].deep_clone())
            } else {
                Some(
                    PlanExpr::OperatorApplicationExp(
                        OperatorApplication { operator: op.operator, operands: kept },
                    ),
                )
            }
        },
        PlanExpr::List(list) => {
            let kept = clean_operands(list);
            if kept.len() == 0 && list.len() > 0 {
                None
            } else {
                Some(PlanExpr::List(kept))
            }
        },
        PlanExpr::AggregateFnCall(agg) => {
            let kept = clean_operands(&agg.args);
            if kept.len() == 0 && agg.args.len() > 0 {
                None
            } else {
                Some(PlanExpr::AggregateFnCall(AggregateFnCall { name: agg.name.clone(), args: kept }))
            }
        },
        PlanExpr::ScalarFnCall(func) => {
            let kept = clean_operands(&func.args);
            if kept.len() == 0 && func.args.len() > 0 {
                None
            } else {
                Some(PlanExpr::ScalarFnCall(ScalarFnCall { name: func.name.clone(), args: kept }))
            }
        },
        other => Some(other.deep_clone()),
    }
}

fn node_alias_of(plan: &LogicalPlan) -> (r: Option<String>)
    ensures
        opt_view(r) == node_alias(plan@),
    decreases plan,
{
    match plan {
        LogicalPlan::Empty => None,
        LogicalPlan::Scan(_) => None,
        LogicalPlan::Union(_) => None,
        LogicalPlan::GraphRel(_) => None,
        LogicalPlan::GraphNode(node) => Some(node.alias.clone()),
        _ => node_alias_of(plan.input_ref().unwrap()),
    }
}

fn append_all<T: View>(a: &mut Vec<T>, b: Vec<T>)
    ensures
        seq_view(final(a)@) == seq_view(old(a)@) + seq_view(b@),
{
    let mut b = b;
    let ghost added = b@;
    a.append(&mut b);
    assert(seq_view(a@) =~= seq_view(old(a)@) + seq_view(added));
}

/// The outcome of a fallible extraction as contracts see it.
pub open spec fn list_view<T: View>(r: Result<Vec<T>, RenderBuildError>) -> Result<
    Seq<T::V>,
    RenderBuildError,
> {
    match r {
        Ok(v) => Ok(seq_view(v@)),
        Err(e) => Err(e),
    }
}

/// The outcome of building a render plan as contracts see it.
pub open spec fn built(r: Result<RenderPlan, RenderBuildError>) -> Result<
    RenderPlanV,
    RenderBuildError,
> {
    match r {
        Ok(p) => Ok(p@),
        Err(e) => Err(e),
    }
}

proof fn lemma_branch_plans_err(s: Seq<PlanV>, i: int)
    requires
        0 <= i < s.len(),
        branch_plans(s.take(i + 1)) is Err,
    ensures
        branch_plans(s) == branch_plans(s.take(i + 1)),
    decreases s.len() - i,
{
    if i + 1 < s.len() {
        assert(s.take(i + 2).drop_last() =~= s.take(i + 1));
        lemma_branch_plans_err(s, i + 1);
    } else {
        assert(s.take(i + 1) =~= s);
    }
}

impl LogicalPlan {
    pub fn extract_select_items(&self) -> (r: Vec<SelectItem>)
        ensures
            seq_view(r@) == select_items(self@),
        decreases self,
    {
        match self {
            LogicalPlan::Empty => {
                let v: Vec<SelectItem> = Vec::new();
                assert(seq_view(v@) =~= Seq::empty());
                v
            },
            LogicalPlan::Scan(_) => {
                let v: Vec<SelectItem> = Vec::new();
                assert(seq_view(v@) =~= Seq::empty());
                v
            },
            LogicalPlan::Union(_) => {
                let v: Vec<SelectItem> = Vec::new();
                assert(seq_view(v@) =~= Seq::empty());
                v
            },
            LogicalPlan::GraphRel(rel) => {
                let mut items = rel.left.extract_select_items();
                append_all(&mut items, rel.center.extract_select_items());
                append_all(&mut items, rel.right.extract_select_items());
                items
            },
            LogicalPlan::Projection(projection) => to_select_items(&projection.items),
            _ => self.input_ref().unwrap().extract_select_items(),
        }
    }

    pub fn extract_from(&self) -> (r: Option<FromTable>)
        ensures
            opt_view(r) == from_table(self@),
        decreases self,
    {
        match self {
            LogicalPlan::Empty => None,
            LogicalPlan::Union(_) => None,
            LogicalPlan::Scan(scan) => Some(
                FromTable {
                    table_name: match &scan.table_name {
                        Some(n) => n.clone(),
                        None => scan.table_alias.clone(),
                    },
                    table_alias: Some(scan.table_alias.clone()),
                },
            ),
            LogicalPlan::GraphRel(rel) => {
                let left = rel.left.extract_from();
                let center = rel.center.extract_from();
                let right = rel.right.extract_from();
                let r = pick_first(left, pick_first(center, right));
                assert(opt_view(r) == first_some(
                    opt_view(left),
                    first_some(opt_view(center), opt_view(right)),
                ));
                r
            },
            _ => self.input_ref().unwrap().extract_from(),
        }
    }

    pub fn extract_filters(&self) -> (r: Option<PlanExpr>)
        ensures
            opt_view(r) == filters(self@),
        decreases self,
    {
        match self {
            LogicalPlan::Empty => None,
            LogicalPlan::Scan(_) => None,
            LogicalPlan::Union(_) => None,
            LogicalPlan::Filter(filter) => Some(filter.predicate.deep_clone()),
            LogicalPlan::GraphRel(rel) => {
                let left = rel.left.extract_filters();
                let center = rel.center.extract_filters();
                let right = rel.right.extract_filters();
                let r = pick_first(left, pick_first(center, right));
                assert(opt_view(r) == first_some(
                    opt_view(left),
                    first_some(opt_view(center), opt_view(right)),
                ));
                r
            },
            _ => self.input_ref().unwrap().extract_filters(),
        }
    }

    pub fn extract_final_filters(&self) -> (r: Option<PlanExpr>)
        ensures
            opt_view(r) == final_filters(self@),
        decreases self,
    {
        match self {
            LogicalPlan::Filter(filter) => Some(filter.predicate.deep_clone()),
            LogicalPlan::Projection(n) => n.input.extract_final_filters(),
            LogicalPlan::GroupBy(n) => n.input.extract_final_filters(),
            LogicalPlan::OrderBy(n) => n.input.extract_final_filters(),
            LogicalPlan::Skip(n) => n.input.extract_final_filters(),
            LogicalPlan::Limit(n) => n.input.extract_final_filters(),
            LogicalPlan::GraphJoins(n) => n.input.extract_final_filters(),
            _ => None,
        }
    }

    pub fn extract_joins(&self) -> (r: Vec<Join>)
        ensures
            seq_view(r@) == joins(self@),
        decreases self,
    {
        match self {
            LogicalPlan::Empty => {
                let v: Vec<Join> = Vec::new();
                assert(seq_view(v@) =~= Seq::empty());
                v
            },
            LogicalPlan::Scan(_) => {
                let v: Vec<Join> = Vec::new();
                assert(seq_view(v@) =~= Seq::empty());
                v
            },
            LogicalPlan::Union(_) => {
                let v: Vec<Join> = Vec::new();
                assert(seq_view(v@) =~= Seq::empty());
                v
            },
            LogicalPlan::GraphJoins(graph_joins) => clone_joins(&graph_joins.joins),
            LogicalPlan::GraphRel(rel) => {
                let mut items = rel.left.extract_joins();
                append_all(&mut items, rel.center.extract_joins());
                append_all(&mut items, rel.right.extract_joins());
                items
            },
            _ => self.input_ref().unwrap().extract_joins(),
        }
    }

    pub fn extract_group_by(&self) -> (r: Vec<PlanExpr>)
        ensures
            seq_view(r@) == group_by(self@),
        decreases self,
    {
        match self {
            LogicalPlan::Empty => {
                let v: Vec<PlanExpr> = Vec::new();
                assert(seq_view(v@) =~= Seq::empty());
                v
            },
            LogicalPlan::Scan(_) => {
                let v: Vec<PlanExpr> = Vec::new();
                assert(seq_view(v@) =~= Seq::empty());
                v
            },
            LogicalPlan::Union(_) => {
                let v: Vec<PlanExpr> = Vec::new();
                assert(seq_view(v@) =~= Seq::empty());
                v
            },
            LogicalPlan::GroupBy(g) => clone_exprs(&g.expressions),
            LogicalPlan::GraphRel(rel) => {
                let mut items = rel.left.extract_group_by();
                append_all(&mut items, rel.center.extract_group_by());
                append_all(&mut items, rel.right.extract_group_by());
                items
            },
            _ => self.input_ref().unwrap().extract_group_by(),
        }
    }

    pub fn extract_order_by(&self) -> (r: Vec<OrderByItem>)
        ensures
            seq_view(r@) == order_by(self@),
        decreases self,
    {
        match self {
            LogicalPlan::Empty => {
                let v: Vec<OrderByItem> = Vec::new();
                assert(seq_view(v@) =~= Seq::empty());
                v
            },
            LogicalPlan::Scan(_) => {
                let v: Vec<OrderByItem> = Vec::new();
                assert(seq_view(v@) =~= Seq::empty());
                v
            },
            LogicalPlan::Union(_) => {
                let v: Vec<OrderByItem> = Vec::new();
                assert(seq_view(v@) =~= Seq::empty());
                v
            },
            LogicalPlan::OrderBy(o) => clone_order_items(&o.items),
            LogicalPlan::GraphRel(rel) => {
                let mut items = rel.left.extract_order_by();
                append_all(&mut items, rel.center.extract_order_by());
                append_all(&mut items, rel.right.extract_order_by());
                items
            },
            _ => self.input_ref().unwrap().extract_order_by(),
        }
    }

    pub fn extract_limit(&self) -> (r: Option<i64>)
        ensures
            r == limit(self@),
        decreases self,
    {
        match self {
            LogicalPlan::Empty => None,
            LogicalPlan::Scan(_) => None,
            LogicalPlan::Union(_) => None,
            LogicalPlan::Limit(l) => Some(l.count),
            LogicalPlan::GraphRel(rel) => pick_first(
                rel.left.extract_limit(),
                pick_first(rel.center.extract_limit(), rel.right.extract_limit()),
            ),
            _ => self.input_ref().unwrap().extract_limit(),
        }
    }

    pub fn extract_skip(&self) -> (r: Option<i64>)
        ensures
            r == skip(self@),
        decreases self,
    {
        match self {
            LogicalPlan::Empty => None,
            LogicalPlan::Scan(_) => None,
            LogicalPlan::Union(_) => None,
            LogicalPlan::Skip(s) => Some(s.count),
            LogicalPlan::GraphRel(rel) => pick_first(
                rel.left.extract_skip(),
                pick_first(rel.center.extract_skip(), rel.right.extract_skip()),
            ),
            _ => self.input_ref().unwrap().extract_skip(),
        }
    }

    /// The body of a CTE that reads one table.
    pub fn extract_branch_plan(&self) -> (r: Result<RenderPlan, RenderBuildError>)
        ensures
            built(r) == branch_plan(self@),
    {
        let select = self.extract_select_items();
        if select.len() == 0 {
            return Err(RenderBuildError::MissingSelectItems);
        }
        match self.extract_from() {
            None => Err(RenderBuildError::MissingFromTable),
            Some(from) => Ok(
                make_simple_plan(
                    to_cte_select(select),
                    Some(FromTable { table_name: from.table_name, table_alias: None }),
                    self.extract_filters(),
                ),
            ),
        }
    }

    /// The body of a CTE.
    pub fn extract_cte_plan(&self) -> (r: Result<RenderPlan, RenderBuildError>)
        ensures
            built(r) == cte_plan(self@),
    {
        match self {
            LogicalPlan::Union(u) => {
                let mut plans: Vec<RenderPlan> = Vec::new();
                let mut i: usize = 0;
                let ghost inputs = self@->inputs;
                assert(inputs.take(0) =~= Seq::empty());
                assert(seq_view(plans@) =~= Seq::empty());
                while i < u.inputs.len()
                    invariant
                        i <= u.inputs.len(),
                        inputs == seq_view(u.inputs@),
                        self@ == (PlanV::Union { inputs }),
                        branch_plans(inputs.take(i as int)) == Ok::<
                            Seq<RenderPlanV>,
                            RenderBuildError,
                        >(seq_view(plans@)),
                    decreases u.inputs.len() - i,
                {
                    proof {
                        assert(inputs.take(i + 1).drop_last() =~= inputs.take(i as int));
                        assert(inputs.take(i + 1).last() == (*u.inputs@[i as int])@);
                    }
                    match u.inputs[i].extract_branch_plan() {
                        Ok(plan) => {
                            let ghost prev = plans@;
                            plans.push(plan);
                            assert(seq_view(plans@) =~= seq_view(prev).push(plan@));
                        },
                        Err(e) => {
                            proof {
                                assert(branch_plans(inputs.take(i + 1)) == Err::<
                                    Seq<RenderPlanV>,
                                    RenderBuildError,
                                >(e));
                                lemma_branch_plans_err(inputs, i as int);
                            }
                            return Err(e);
                        },
                    }
                    i += 1;
                }
                assert(inputs.take(u.inputs.len() as int) =~= inputs);
                let mut plan = make_simple_plan(Vec::new(), None, None);
                assert(plan@.select =~= Seq::empty());
                plan.union = UnionItems(plans);
                Ok(plan)
            },
            _ => self.extract_branch_plan(),
        }
    }

    pub fn extract_ctes(&self, last_node_alias: &str) -> (r: Result<Vec<Cte>, RenderBuildError>)
        ensures
            list_view(r) == ctes(self@, last_node_alias@),
        decreases self,
    {
        match self {
            LogicalPlan::Empty => {
                let v: Vec<Cte> = Vec::new();
                assert(seq_view(v@) =~= Seq::empty());
                Ok(v)
            },
            LogicalPlan::Scan(_) => {
                let v: Vec<Cte> = Vec::new();
                assert(seq_view(v@) =~= Seq::empty());
                Ok(v)
            },
            LogicalPlan::Union(_) => {
                let v: Vec<Cte> = Vec::new();
                assert(seq_view(v@) =~= Seq::empty());
                Ok(v)
            },
            LogicalPlan::GraphRel(rel) => {
                let mut list = match rel.right.extract_ctes(last_node_alias) {
                    Ok(l) => l,
                    Err(e) => {
                        return Err(e);
                    },
                };
                match rel.center.extract_ctes(last_node_alias) {
                    Ok(c) => append_all(&mut list, c),
                    Err(e) => {
                        return Err(e);
                    },
                }
                let wanted = String::from_str(last_node_alias);
                if rel.left_connection != wanted {
                    match rel.left.extract_ctes(last_node_alias) {
                        Ok(l) => append_all(&mut list, l),
                        Err(e) => {
                            return Err(e);
                        },
                    }
                }
                Ok(list)
            },
            LogicalPlan::GraphNode(node) => {
                let wanted = String::from_str(last_node_alias);
                if node.alias == wanted {
                    let v: Vec<Cte> = Vec::new();
                    assert(seq_view(v@) =~= Seq::empty());
                    Ok(v)
                } else {
                    node.input.extract_ctes(last_node_alias)
                }
            },
            LogicalPlan::Cte(cte) => {
                let owner = node_alias_of(&*cte.input);
                let is_last = match &owner {
                    Some(a) => *a == String::from_str(last_node_alias),
                    None => false,
                };
                if is_last {
                    let v: Vec<Cte> = Vec::new();
                    assert(seq_view(v@) =~= Seq::empty());
                    return Ok(v);
                }
                match cte.input.extract_cte_plan() {
                    Err(e) => Err(e),
                    Ok(plan) => {
                        let item = Cte { cte_name: cte.name.clone(), cte_plan: plan };
                        let list = vec![item];
                        assert(seq_view(list@) =~= seq![item@]);
                        Ok(list)
                    },
                }
            },
            _ => self.input_ref().unwrap().extract_ctes(last_node_alias),
        }
    }

    pub fn extract_last_node_cte(&self) -> (r: Option<Cte>)
        ensures
            opt_view(r) == last_node_cte(self@),
        decreases self,
    {
        match self {
            LogicalPlan::Empty => None,
            LogicalPlan::Scan(_) => None,
            LogicalPlan::Union(_) => None,
            LogicalPlan::GraphRel(rel) => {
                let left = rel.left.extract_last_node_cte();
                match left {
                    Some(c) => Some(c),
                    None => rel.right.extract_last_node_cte(),
                }
            },
            LogicalPlan::Cte(cte) => {
                let select = cte.input.extract_select_items();
                if select.len() == 0 {
                    return None;
                }
                match cte.input.extract_from() {
                    None => None,
                    Some(from) => Some(
                        Cte {
                            cte_name: cte.name.clone(),
                            cte_plan: make_simple_plan(
                                select,
                                Some(from),
                                cte.input.extract_filters(),
                            ),
                        },
                    ),
                }
            },
            _ => self.input_ref().unwrap().extract_last_node_cte(),
        }
    }

    /// The alias of the node that the outer query reads directly.
    pub fn extract_last_node_alias(&self) -> (r: Option<String>)
        ensures
            opt_view(r) == last_node_alias(self@),
        decreases self,
    {
        match self {
            LogicalPlan::Empty => None,
            LogicalPlan::Scan(_) => None,
            LogicalPlan::Union(_) => None,
            LogicalPlan::GraphNode(node) => {
                if node.input.extract_last_node_cte().is_some() {
                    match node.input.extract_last_node_alias() {
                        Some(a) => Some(a),
                        None => Some(node.alias.clone()),
                    }
                } else {
                    None
                }
            },
            LogicalPlan::GraphRel(rel) => {
                if rel.left.extract_last_node_cte().is_some() {
                    rel.left.extract_last_node_alias()
                } else {
                    rel.right.extract_last_node_alias()
                }
            },
            LogicalPlan::Cte(cte) => {
                if self.extract_last_node_cte().is_some() {
                    node_alias_of(&*cte.input)
                } else {
                    None
                }
            },
            _ => self.input_ref().unwrap().extract_last_node_alias(),
        }
    }

    /// The render plan of the logical plan.
    pub fn to_render_plan(&self) -> (r: Result<RenderPlan, RenderBuildError>)
        ensures
            built(r) == render_plan(self@),
            r matches Ok(plan) ==> plan@.select.len() >= 1,
    {
        let (ctes, from, filters) = match self.extract_last_node_cte() {
            Some(last_node_cte) => {
                let alias = match self.extract_last_node_alias() {
                    Some(a) => a,
                    None => {
                        return Err(RenderBuildError::MalformedCTEName);
                    },
                };
                let ctes = match self.extract_ctes(alias.as_str()) {
                    Ok(c) => c,
                    Err(e) => {
                        return Err(e);
                    },
                };
                let anchor_filters = match &last_node_cte.cte_plan.filters.0 {
                    Some(f) => clean_last_node_filters(f),
                    None => None,
                };
                let outer_filters = self.extract_final_filters();
                let combined = match (outer_filters, anchor_filters) {
                    (Some(a), Some(b)) => {
                        let operands = vec![a, b];
                        assert(seq_view(operands@) =~= seq![a@, b@]);
                        Some(
                            PlanExpr::OperatorApplicationExp(
                                OperatorApplication { operator: Operator::And, operands },
                            ),
                        )
                    },
                    (Some(a), None) => Some(a),
                    (None, b) => b,
                };
                (ctes, last_node_cte.cte_plan.from.0, combined)
            },
            None => {
                match self.extract_from() {
                    None => {
                        return Err(RenderBuildError::MissingFromTable);
                    },
                    Some(f) => {
                        let v: Vec<Cte> = Vec::new();
                        assert(seq_view(v@) =~= Seq::empty());
                        (v, Some(f), self.extract_filters())
                    },
                }
            },
        };
        let select = self.extract_select_items();
        if select.len() == 0 {
            return Err(RenderBuildError::MissingSelectItems);
        }
        let joins = sort_by_on_len(&self.extract_joins());
        let union: Vec<RenderPlan> = Vec::new();
        assert(seq_view(union@) =~= Seq::empty());
        Ok(
            RenderPlan {
                ctes: CteItems(ctes),
                select: SelectItems(select),
                from: FromTableItem(from),
                joins: JoinItems(joins),
                filters: FilterItems(filters),
                group_by: GroupByExpressions(self.extract_group_by()),
                order_by: OrderByItems(self.extract_order_by()),
                skip: SkipItem(self.extract_skip()),
                limit: LimitItem(self.extract_limit()),
                union: UnionItems(union),
            },
        )
    }
}

} // verus!
