//! Filter tagging: the conjuncts of a `WHERE` predicate that speak of one
//! alias only move into the context of that alias; the others stay.
use vstd::prelude::*;
use std::sync::Arc;
use crate::analyzer::analyzer_pass::{analyzed, untouched, Analysis, AnalyzerPass};
use crate::errors::{AnalyzerError, AnalyzerErrorV, Pass};
use crate::graph_schema::{GraphSchema, GraphSchemaV};
use crate::expr::{
    has_aggregate, lemma_expr_view, AggregateFnCall, Column, ExprV, FnCallV, OpAppV, Operator,
    OperatorApplication, PlanExpr, PropertyAccess, PropertyAccessV, ScalarFnCall,
};
use crate::logical_plan::{
    rebuild, rebuild_graph_rel, rebuild_rel, rebuild_single, rebuild_union, rebuild_union_node,
    single_input, tf_view, tfs_view, union_input, union_len, Filter, LogicalPlan, PlanV,
    ProjectionItem, ProjectionItemV,
};
use crate::plan_ctx::{push_new, PlanCtx, PlanCtxV, TableCtxV};
use crate::transformed::Transformed;
use crate::views::{opt_view, seq_view, Text};

verus! {

broadcast use lemma_expr_view;

pub struct FilterTagging;

/// The expression with every `alias.column` replaced by the bare column.
/// Subquery operands are left as they are.
pub open spec fn to_columns(e: ExprV) -> ExprV
    decreases e,
{
    match e {
        ExprV::PropertyAccess(pa) => ExprV::Column(pa.column),
        ExprV::OperatorApplication(op) => ExprV::OperatorApplication(
            OpAppV { operator: op.operator, operands: to_columns_all(op.operands) },
        ),
        ExprV::List(s) => ExprV::List(to_columns_all(s)),
        ExprV::ScalarFnCall(f) => ExprV::ScalarFnCall(
            FnCallV { name: f.name, args: to_columns_all(f.args) },
        ),
        ExprV::AggregateFnCall(f) => ExprV::AggregateFnCall(
            FnCallV { name: f.name, args: to_columns_all(f.args) },
        ),
        other => other,
    }
}

pub open spec fn to_columns_all(s: Seq<ExprV>) -> Seq<ExprV>
    decreases s,
{
    if s.len() == 0 {
        Seq::empty()
    } else {
        to_columns_all(s.drop_last()).push(to_columns(s.last()))
    }
}

/// Every `alias.column` inside the expression, from left to right.
pub open spec fn prop_accesses(e: ExprV) -> Seq<PropertyAccessV>
    decreases e,
{
    match e {
        ExprV::PropertyAccess(pa) => seq![pa],
        ExprV::OperatorApplication(op) => prop_accesses_all(op.operands),
        ExprV::List(s) => prop_accesses_all(s),
        ExprV::ScalarFnCall(f) => prop_accesses_all(f.args),
        ExprV::AggregateFnCall(f) => prop_accesses_all(f.args),
        ExprV::InSubquery(sq) => prop_accesses(*sq.expr),
        _ => Seq::empty(),
    }
}

pub open spec fn prop_accesses_all(s: Seq<ExprV>) -> Seq<PropertyAccessV>
    decreases s,
{
    if s.len() == 0 {
        Seq::empty()
    } else {
        prop_accesses_all(s.drop_last()) + prop_accesses(s.last())
    }
}

/// `true` when the accesses are not empty and all speak of one alias.
pub open spec fn one_alias(pas: Seq<PropertyAccessV>) -> bool {
    pas.len() > 0 && forall|i: int|
        0 <= i < pas.len() ==> (#[trigger] pas[i]).table_alias == pas[0].table_alias
}

/// The error for an alias that no pattern introduced.
pub open spec fn orphan(alias: Text) -> AnalyzerErrorV {
    AnalyzerErrorV::OrphanAlias { pass: Pass::FilterTagging, alias }
}

/// The table context with the predicate among its filters; a relationship
/// with a filter is read from its edge list.
pub open spec fn with_filter(t: TableCtxV, pred: ExprV) -> TableCtxV {
    TableCtxV {
        filter_predicates: push_new(t.filter_predicates, pred),
        use_edge_list: t.use_edge_list || t.is_rel,
        ..t
    }
}

/// The table context with the column among its projections; a relationship
/// with a projection is read from its edge list.
pub open spec fn with_projection(t: TableCtxV, pa: PropertyAccessV) -> TableCtxV {
    TableCtxV {
        projection_items: push_new(
            t.projection_items,
            ProjectionItemV { expression: ExprV::PropertyAccess(pa), col_alias: None },
        ),
        use_edge_list: t.use_edge_list || t.is_rel,
        ..t
    }
}

/// The context after each access was recorded as a projection of its alias.
pub open spec fn tag_projections(pas: Seq<PropertyAccessV>, ctx: PlanCtxV) -> Result<
    PlanCtxV,
    AnalyzerErrorV,
>
    decreases pas.len(),
{
    if pas.len() == 0 {
        Ok(ctx)
    } else {
        match tag_projections(pas.drop_last(), ctx) {
            Err(e) => Err(e),
            Ok(c) => match c.get(pas.last().table_alias) {
                None => Err(orphan(pas.last().table_alias)),
                Some(t) => Ok(c.with(pas.last().table_alias, with_projection(t, pas.last()))),
            },
        }
    }
}

/// What becomes of one conjunct: what is left of it in the predicate, and
/// the context after it.
///
/// - A conjunction is taken apart; what is left of its operands is joined
///   again, a lone survivor standing alone.
/// - A disjunction, and a conjunct that holds an aggregate, stay.
/// - A conjunct whose columns all belong to one alias moves to that alias,
///   with bare columns.
/// - A conjunct over several aliases stays, and its columns become
///   projections of their aliases.
pub open spec fn tag_conjunct(e: ExprV, ctx: PlanCtxV) -> Result<
    (Option<ExprV>, PlanCtxV),
    AnalyzerErrorV,
>
    decreases e,
{
    match e {
        ExprV::OperatorApplication(op) => if op.operator == Operator::And {
            match tag_conjuncts(op.operands, ctx) {
                Err(err) => Err(err),
                Ok((rest, c)) => if rest.len() == 0 {
                    Ok((None, c))
                } else if rest.len() == 1 {
                    Ok((Some(rest[0]), c))
                } else {
                    Ok(
                        (
                            Some(
                                ExprV::OperatorApplication(
                                    OpAppV { operator: Operator::And, operands: rest },
                                ),
                            ),
                            c,
                        ),
                    )
                },
            }
        } else {
            tag_leaf(e, ctx)
        },
        _ => tag_leaf(e, ctx),
    }
}

/// What becomes of a conjunct that is not itself a conjunction.
pub open spec fn tag_leaf(e: ExprV, ctx: PlanCtxV) -> Result<
    (Option<ExprV>, PlanCtxV),
    AnalyzerErrorV,
> {
    let pas = prop_accesses(e);
    if (e matches ExprV::OperatorApplication(op) && op.operator == Operator::Or) || has_aggregate(
        e,
    ) || pas.len() == 0 {
        Ok((Some(e), ctx))
    } else if one_alias(pas) {
        match ctx.get(pas[0].table_alias) {
            None => Err(orphan(pas[0].table_alias)),
            Some(t) => Ok((None, ctx.with(pas[0].table_alias, with_filter(t, to_columns(e))))),
        }
    } else {
        match tag_projections(pas, ctx) {
            Err(err) => Err(err),
            Ok(c) => Ok((Some(e), c)),
        }
    }
}

/// What becomes of the operands of a conjunction, from left to right.
pub open spec fn tag_conjuncts(s: Seq<ExprV>, ctx: PlanCtxV) -> Result<
    (Seq<ExprV>, PlanCtxV),
    AnalyzerErrorV,
>
    decreases s,
{
    if s.len() == 0 {
        Ok((Seq::empty(), ctx))
    } else {
        match tag_conjuncts(s.drop_last(), ctx) {
            Err(err) => Err(err),
            Ok((rest, c)) => match tag_conjunct(s.last(), c) {
                Err(err) => Err(err),
                Ok((Some(left), c2)) => Ok((rest.push(left), c2)),
                Ok((None, c2)) => Ok((rest, c2)),
            },
        }
    }
}

/// What the pass makes of a plan and a context. The children of a node are
/// visited before the node; a filter whose predicate moved away entirely
/// gives way to its child.
pub open spec fn filter_tagging(p: PlanV, ctx: PlanCtxV) -> Result<
    (Transformed<PlanV>, PlanCtxV),
    AnalyzerErrorV,
>
    decreases p,
{
    match p {
        PlanV::Empty => Ok((Transformed::No(p), ctx)),
        PlanV::Scan { .. } => Ok((Transformed::No(p), ctx)),
        PlanV::Filter { input, predicate } => match filter_tagging(*input, ctx) {
            Err(e) => Err(e),
            Ok((child_tf, c1)) => match tag_conjunct(predicate, c1) {
                Err(e) => Err(e),
                Ok((Some(left), c2)) => Ok(
                    (
                        Transformed::Yes(
                            PlanV::Filter { input: Box::new(child_tf.plan()), predicate: left },
                        ),
                        c2,
                    ),
                ),
                Ok((None, c2)) => Ok((Transformed::Yes(child_tf.plan()), c2)),
            },
        },
        PlanV::GraphRel { left, center, right, .. } => match filter_tagging(*left, ctx) {
            Err(e) => Err(e),
            Ok((left_tf, c1)) => match filter_tagging(*center, c1) {
                Err(e) => Err(e),
                Ok((center_tf, c2)) => match filter_tagging(*right, c2) {
                    Err(e) => Err(e),
                    Ok((right_tf, c3)) => Ok((rebuild_rel(p, left_tf, center_tf, right_tf), c3)),
                },
            },
        },
        PlanV::Union { inputs } => match filter_tagging_all(inputs, ctx) {
            Err(e) => Err(e),
            Ok((tfs, c)) => Ok((rebuild_union(p, tfs), c)),
        },
        _ => match filter_tagging(p.input(), ctx) {
            Err(e) => Err(e),
            Ok((tf, c)) => Ok((rebuild(p, tf), c)),
        },
    }
}

pub open spec fn filter_tagging_all(s: Seq<PlanV>, ctx: PlanCtxV) -> Result<
    (Seq<Transformed<PlanV>>, PlanCtxV),
    AnalyzerErrorV,
>
    decreases s,
{
    if s.len() == 0 {
        Ok((Seq::empty(), ctx))
    } else {
        match filter_tagging_all(s.drop_last(), ctx) {
            Err(e) => Err(e),
            Ok((tfs, c)) => match filter_tagging(s.last(), c) {
                Err(e) => Err(e),
                Ok((tf, c2)) => Ok((tfs.push(tf), c2)),
            },
        }
    }
}

fn convert_all(v: &Vec<PlanExpr>) -> (out: Vec<PlanExpr>)
    ensures
        seq_view(out@) == to_columns_all(seq_view(v@)),
    decreases v,
{
    let mut out: Vec<PlanExpr> = Vec::new();
    let mut i: usize = 0;
    assert(seq_view(out@) =~= Seq::empty());
    while i < v.len()
        invariant
            i <= v.len(),
            seq_view(out@) == to_columns_all(seq_view(v@).take(i as int)),
        decreases v.len() - i,
    {
        proof {
            assert(seq_view(v@).take(i + 1).drop_last() =~= seq_view(v@).take(i as int));
        }
        let c = convert(&v[i]);
        let ghost prev = out@;
        out.push(c);
        assert(seq_view(out@) =~= seq_view(prev).push(c@));
        i += 1;
    }
    assert(seq_view(v@).take(v.len() as int) =~= seq_view(v@));
    out
}

fn convert(expr: &PlanExpr) -> (r: PlanExpr)
    ensures
        r@ == to_columns(expr@),
    decreases expr,
{
    match expr {
        PlanExpr::PropertyAccessExp(pa) => PlanExpr::Column(Column(pa.column.0.clone())),
        PlanExpr::OperatorApplicationExp(op) => PlanExpr::OperatorApplicationExp(
            OperatorApplication { operator: op.operator, operands: convert_all(&op.operands) },
        ),
        PlanExpr::List(exprs) => PlanExpr::List(convert_all(exprs)),
        PlanExpr::ScalarFnCall(fc) => PlanExpr::ScalarFnCall(
            ScalarFnCall { name: fc.name.clone(), args: convert_all(&fc.args) },
        ),
        PlanExpr::AggregateFnCall(fc) => PlanExpr::AggregateFnCall(
            AggregateFnCall { name: fc.name.clone(), args: convert_all(&fc.args) },
        ),
        other => other.deep_clone(),
    }
}

fn collect_all(v: &Vec<PlanExpr>, out: &mut Vec<PropertyAccess>)
    ensures
        seq_view(final(out)@) == seq_view(old(out)@) + prop_accesses_all(seq_view(v@)),
    decreases v,
{
    let mut i: usize = 0;
    assert(seq_view(out@) =~= seq_view(old(out)@) + Seq::<PropertyAccessV>::empty());
    while i < v.len()
        invariant
            i <= v.len(),
            seq_view(out@) == seq_view(old(out)@) + prop_accesses_all(
                seq_view(v@).take(i as int),
            ),
        decreases v.len() - i,
    {
        let ghost before = seq_view(out@);
        proof {
            assert(seq_view(v@).take(i + 1).drop_last() =~= seq_view(v@).take(i as int));
        }
        collect(&v[i], out);
        assert(seq_view(out@) =~= seq_view(old(out)@) + prop_accesses_all(
            seq_view(v@).take(i + 1),
        ));
        i += 1;
    }
    assert(seq_view(v@).take(v.len() as int) =~= seq_view(v@));
}

fn collect(expr: &PlanExpr, out: &mut Vec<PropertyAccess>)
    ensures
        seq_view(final(out)@) == seq_view(old(out)@) + prop_accesses(expr@),
    decreases expr,
{
    match expr {
        PlanExpr::PropertyAccessExp(pa) => {
            let c = pa.deep_clone();
            out.push(c);
            assert(seq_view(out@) =~= seq_view(old(out)@) + seq![pa@]);
        },
        PlanExpr::OperatorApplicationExp(op) => collect_all(&op.operands, out),
        PlanExpr::List(exprs) => collect_all(exprs, out),
        PlanExpr::ScalarFnCall(fc) => collect_all(&fc.args, out),
        PlanExpr::AggregateFnCall(fc) => collect_all(&fc.args, out),
        PlanExpr::InSubquery(sq) => collect(&sq.expr, out),
        _ => {
            assert(seq_view(out@) =~= seq_view(old(out)@) + Seq::<PropertyAccessV>::empty());
        },
    }
}

fn same_alias(pas: &Vec<PropertyAccess>) -> (r: bool)
    ensures
        r == one_alias(seq_view(pas@)),
{
    if pas.len() == 0 {
        return false;
    }
    let mut i: usize = 1;
    while i < pas.len()
        invariant
            1 <= i <= pas.len(),
            forall|j: int|
                0 <= j < i ==> (#[trigger] seq_view(pas@)[j]).table_alias == seq_view(
                    pas@,
                )[0].table_alias,
        decreases pas.len() - i,
    {
        if pas[i].table_alias.0 != pas[0].table_alias.0 {
            assert(seq_view(pas@)[i as int].table_alias != seq_view(pas@)[0].table_alias);
            return false;
        }
        i += 1;
    }
    true
}

fn orphan_error(alias: &String) -> (e: AnalyzerError)
    ensures
        e@ == orphan(alias@),
{
    AnalyzerError::OrphanAlias { pass: Pass::FilterTagging, alias: alias.clone() }
}

fn tag_projection_items(pas: &Vec<PropertyAccess>, plan_ctx: &mut PlanCtx) -> (r: Result<
    (),
    AnalyzerError,
>)
    ensures
        match r {
            Ok(_) => tag_projections(seq_view(pas@), old(plan_ctx)@) == Ok::<
                PlanCtxV,
                AnalyzerErrorV,
            >(final(plan_ctx)@),
            Err(e) => tag_projections(seq_view(pas@), old(plan_ctx)@) == Err::<
                PlanCtxV,
                AnalyzerErrorV,
            >(e@),
        },
{
    let mut i: usize = 0;
    while i < pas.len()
        invariant
            i <= pas.len(),
            tag_projections(seq_view(pas@).take(i as int), old(plan_ctx)@) == Ok::<
                PlanCtxV,
                AnalyzerErrorV,
            >(plan_ctx@),
        decreases pas.len() - i,
    {
        proof {
            assert(seq_view(pas@).take(i + 1).drop_last() =~= seq_view(pas@).take(i as int));
        }
        let pa = &pas[i];
        match plan_ctx.get_mut_table_ctx_opt(pa.table_alias.0.as_str()) {
            Some(table_ctx) => {
                table_ctx.insert_projection(
                    ProjectionItem {
                        expression: PlanExpr::PropertyAccessExp(pa.deep_clone()),
                        col_alias: None,
                    },
                );
                if table_ctx.is_relation() {
                    table_ctx.set_use_edge_list(true);
                }
            },
            None => {
                proof {
                    lemma_tag_projections_err(seq_view(pas@), old(plan_ctx)@, i as int);
                }
                return Err(orphan_error(&pa.table_alias.0));
            },
        }
        i += 1;
    }
    assert(seq_view(pas@).take(pas.len() as int) =~= seq_view(pas@));
    Ok(())
}

/// An error at a prefix of the accesses is the error of the whole.
proof fn lemma_tag_projections_err(pas: Seq<PropertyAccessV>, ctx: PlanCtxV, i: int)
    requires
        0 <= i < pas.len(),
        tag_projections(pas.take(i + 1), ctx) is Err,
    ensures
        tag_projections(pas, ctx) == tag_projections(pas.take(i + 1), ctx),
    decreases pas.len() - i,
{
    if i + 1 < pas.len() {
        assert(pas.take(i + 2).drop_last() =~= pas.take(i + 1));
        lemma_tag_projections_err(pas, ctx, i + 1);
    } else {
        assert(pas.take(i + 1) =~= pas);
    }
}

/// An error at a prefix of the conjuncts is the error of the whole.
proof fn lemma_tag_conjuncts_err(s: Seq<ExprV>, ctx: PlanCtxV, i: int)
    requires
        0 <= i < s.len(),
        tag_conjuncts(s.take(i + 1), ctx) is Err,
    ensures
        tag_conjuncts(s, ctx) is Err,
        tag_conjuncts(s, ctx)->Err_0 == tag_conjuncts(s.take(i + 1), ctx)->Err_0,
    decreases s.len() - i,
{
    if i + 1 < s.len() {
        assert(s.take(i + 2).drop_last() =~= s.take(i + 1));
        lemma_tag_conjuncts_err(s, ctx, i + 1);
    } else {
        assert(s.take(i + 1) =~= s);
    }
}

/// An error at a prefix of the plans is the error of the whole.
proof fn lemma_filter_tagging_all_err(s: Seq<PlanV>, ctx: PlanCtxV, i: int)
    requires
        0 <= i < s.len(),
        filter_tagging_all(s.take(i + 1), ctx) is Err,
    ensures
        filter_tagging_all(s, ctx) is Err,
        filter_tagging_all(s, ctx)->Err_0 == filter_tagging_all(s.take(i + 1), ctx)->Err_0,
    decreases s.len() - i,
{
    if i + 1 < s.len() {
        assert(s.take(i + 2).drop_last() =~= s.take(i + 1));
        lemma_filter_tagging_all_err(s, ctx, i + 1);
    } else {
        assert(s.take(i + 1) =~= s);
    }
}

/// The outcome of tagging as contracts see it.
pub open spec fn tagged(r: Result<Option<PlanExpr>, AnalyzerError>, ctx_after: PlanCtxV) -> Result<
    (Option<ExprV>, PlanCtxV),
    AnalyzerErrorV,
> {
    match r {
        Ok(rest) => Ok((opt_view(rest), ctx_after)),
        Err(e) => Err(e@),
    }
}

fn tag_leaf_expr(expr: &PlanExpr, plan_ctx: &mut PlanCtx) -> (r: Result<
    Option<PlanExpr>,
    AnalyzerError,
>)
    ensures
        tagged(r, final(plan_ctx)@) == tag_leaf(expr@, old(plan_ctx)@),
{
    let is_or = match expr {
        PlanExpr::OperatorApplicationExp(op) => op.operator == Operator::Or,
        _ => false,
    };
    let mut pas: Vec<PropertyAccess> = Vec::new();
    assert(seq_view(pas@) =~= Seq::empty());
    collect(expr, &mut pas);
    assert(seq_view(pas@) =~= prop_accesses(expr@));
    if is_or || expr.contains_aggregate() || pas.len() == 0 {
        return Ok(Some(expr.deep_clone()));
    }
    if same_alias(&pas) {
        let alias = &pas[0].table_alias.0;
        match plan_ctx.get_mut_table_ctx_opt(alias.as_str()) {
            Some(table_ctx) => {
                table_ctx.insert_filter(convert(expr));
                if table_ctx.is_relation() {
                    table_ctx.set_use_edge_list(true);
                }
                Ok(None)
            },
            None => Err(orphan_error(alias)),
        }
    } else {
        match tag_projection_items(&pas, plan_ctx) {
            Ok(_) => Ok(Some(expr.deep_clone())),
            Err(e) => Err(e),
        }
    }
}

/// The outcome of tagging the operands of a conjunction as contracts see it.
pub open spec fn tagged_all(r: Result<Vec<PlanExpr>, AnalyzerError>, ctx_after: PlanCtxV) -> Result<
    (Seq<ExprV>, PlanCtxV),
    AnalyzerErrorV,
> {
    match r {
        Ok(rest) => Ok((seq_view(rest@), ctx_after)),
        Err(e) => Err(e@),
    }
}

fn tag_operands(operands: &Vec<PlanExpr>, plan_ctx: &mut PlanCtx) -> (r: Result<
    Vec<PlanExpr>,
    AnalyzerError,
>)
    ensures
        tagged_all(r, final(plan_ctx)@) == tag_conjuncts(seq_view(operands@), old(plan_ctx)@),
    decreases operands,
{
    let mut rest: Vec<PlanExpr> = Vec::new();
    let mut i: usize = 0;
    let ghost ops = seq_view(operands@);
    assert(seq_view(rest@) =~= Seq::empty());
    assert(ops.take(0) =~= Seq::empty());
    while i < operands.len()
        invariant
            i <= operands.len(),
            ops == seq_view(operands@),
            tag_conjuncts(ops.take(i as int), old(plan_ctx)@) == Ok::<
                (Seq<ExprV>, PlanCtxV),
                AnalyzerErrorV,
            >((seq_view(rest@), plan_ctx@)),
        decreases operands.len() - i,
    {
        proof {
            assert(ops.take(i + 1).drop_last() =~= ops.take(i as int));
            assert(ops.take(i + 1).last() == operands@[i as int]@);
        }
        match process_expr(&operands[i], plan_ctx) {
            Ok(Some(left)) => {
                let ghost prev = rest@;
                rest.push(left);
                assert(seq_view(rest@) =~= seq_view(prev).push(left@));
            },
            Ok(None) => {},
            Err(e) => {
                proof {
                    assert(tag_conjuncts(ops.take(i + 1), old(plan_ctx)@) == Err::<
                        (Seq<ExprV>, PlanCtxV),
                        AnalyzerErrorV,
                    >(e@));
                    lemma_tag_conjuncts_err(ops, old(plan_ctx)@, i as int);
                }
                return Err(e);
            },
        }
        i += 1;
    }
    assert(ops.take(operands.len() as int) =~= ops);
    Ok(rest)
}

fn process_expr(expr: &PlanExpr, plan_ctx: &mut PlanCtx) -> (r: Result<Option<PlanExpr>, AnalyzerError>)
    ensures
        tagged(r, final(plan_ctx)@) == tag_conjunct(expr@, old(plan_ctx)@),
    decreases expr,
{
    match expr {
        PlanExpr::OperatorApplicationExp(op) => {
            if op.operator == Operator::And {
                match tag_operands(&op.operands, plan_ctx) {
                    Err(e) => Err(e),
                    Ok(rest) => {
                        if rest.len() == 0 {
                            Ok(None)
                        } else if rest.len() == 1 {
                            Ok(Some(rest[0].deep_clone()))
                        } else {
                            Ok(
                                Some(
                                    PlanExpr::OperatorApplicationExp(
                                        OperatorApplication {
                                            operator: Operator::And,
                                            operands: rest,
                                        },
                                    ),
                                ),
                            )
                        }
                    },
                }
            } else {
                tag_leaf_expr(expr, plan_ctx)
            }
        },
        _ => tag_leaf_expr(expr, plan_ctx),
    }
}

impl FilterTagging {
    pub fn new() -> (r: Self)
        ensures
            r == FilterTagging,
    {
        FilterTagging
    }

    /// Sorts the conjuncts of a predicate into those that move to the
    /// context of one alias and those that stay; returns what stays.
    pub fn extract_filters(&self, filter_predicate: PlanExpr, plan_ctx: &mut PlanCtx) -> (r: Result<
        Option<PlanExpr>,
        AnalyzerError,
    >)
        ensures
            tagged(r, final(plan_ctx)@) == tag_conjunct(filter_predicate@, old(plan_ctx)@),
    {
        process_expr(&filter_predicate, plan_ctx)
    }

    /// The expression with every `alias.column` replaced by the bare column.
    pub fn convert_prop_acc_to_column(&self, expr: PlanExpr) -> (r: PlanExpr)
        ensures
            r@ == to_columns(expr@),
    {
        convert(&expr)
    }

}

impl AnalyzerPass for FilterTagging {
    open spec fn analysis(&self, plan: PlanV, ctx: PlanCtxV, outcome: Analysis) -> bool {
        outcome == filter_tagging(plan, ctx)
    }

    open spec fn analysis_with_graph_schema(
        &self,
        plan: PlanV,
        ctx: PlanCtxV,
        schema: GraphSchemaV,
        outcome: Analysis,
    ) -> bool {
        outcome == untouched(plan, ctx)
    }

    /// Runs the pass on a plan.
    fn analyze(&self, logical_plan: Arc<LogicalPlan>, plan_ctx: &mut PlanCtx) -> (r: Result<
        Transformed<Arc<LogicalPlan>>,
        AnalyzerError,
    >)
        ensures
            analyzed(r, final(plan_ctx)@) == filter_tagging(logical_plan@, old(plan_ctx)@),
            r matches Ok(tf) ==> (tf is No ==> tf.plan() == logical_plan),
    {
        tag_plan(&logical_plan, plan_ctx)
    }

    /// The pass reads no catalog: its work is done by `analyze`, and this
    /// method leaves the plan and the context as they are.
    fn analyze_with_graph_schema(
        &self,
        logical_plan: Arc<LogicalPlan>,
        plan_ctx: &mut PlanCtx,
        graph_schema: &GraphSchema,
    ) -> (r: Result<Transformed<Arc<LogicalPlan>>, AnalyzerError>) {
        Ok(Transformed::No(logical_plan))
    }
}

fn tag_plan(plan: &Arc<LogicalPlan>, plan_ctx: &mut PlanCtx) -> (r: Result<
    Transformed<Arc<LogicalPlan>>,
    AnalyzerError,
>)
    ensures
        analyzed(r, final(plan_ctx)@) == filter_tagging(plan@, old(plan_ctx)@),
        r matches Ok(tf) ==> (tf is No ==> tf.plan() == *plan),
    decreases plan,
{
    match &**plan {
        LogicalPlan::Empty => Ok(Transformed::No(plan.clone())),
        LogicalPlan::Scan(_) => Ok(Transformed::No(plan.clone())),
        LogicalPlan::Filter(filter) => {
            let child_tf = match tag_plan(&filter.input, plan_ctx) {
                Ok(tf) => tf,
                Err(e) => {
                    return Err(e);
                },
            };
            match process_expr(&filter.predicate, plan_ctx) {
                Ok(Some(left)) => Ok(
                    Transformed::Yes(
                        Arc::new(
                            LogicalPlan::Filter(
                                Filter { input: child_tf.get_plan(), predicate: left },
                            ),
                        ),
                    ),
                ),
                Ok(None) => Ok(Transformed::Yes(child_tf.get_plan())),
                Err(e) => Err(e),
            }
        },
        LogicalPlan::GraphRel(rel) => {
            let left_tf = match tag_plan(&rel.left, plan_ctx) {
                Ok(tf) => tf,
                Err(e) => {
                    return Err(e);
                },
            };
            let center_tf = match tag_plan(&rel.center, plan_ctx) {
                Ok(tf) => tf,
                Err(e) => {
                    return Err(e);
                },
            };
            let right_tf = match tag_plan(&rel.right, plan_ctx) {
                Ok(tf) => tf,
                Err(e) => {
                    return Err(e);
                },
            };
            Ok(rebuild_graph_rel(plan, left_tf, center_tf, right_tf))
        },
        LogicalPlan::Union(_) => {
            let n = union_len(plan);
            let mut tfs: Vec<Transformed<Arc<LogicalPlan>>> = Vec::new();
            let mut i: usize = 0;
            let ghost inputs = plan@->inputs;
            assert(inputs.take(0) =~= Seq::empty());
            assert(tfs_view(tfs@) =~= Seq::empty());
            while i < n
                invariant
                    i <= n,
                    plan@ is Union,
                    inputs == plan@->inputs,
                    n == inputs.len(),
                    filter_tagging_all(inputs.take(i as int), old(plan_ctx)@) == Ok::<
                        (Seq<Transformed<PlanV>>, PlanCtxV),
                        AnalyzerErrorV,
                    >((tfs_view(tfs@), plan_ctx@)),
                decreases n - i,
            {
                let child = union_input(plan, i);
                proof {
                    assert(inputs.take(i + 1).drop_last() =~= inputs.take(i as int));
                }
                match tag_plan(&child, plan_ctx) {
                    Ok(tf) => {
                        proof {
                            assert(tfs_view(tfs@.push(tf)) =~= tfs_view(tfs@).push(tf_view(tf)));
                        }
                        tfs.push(tf);
                    },
                    Err(e) => {
                        proof {
                            assert(filter_tagging_all(inputs.take(i + 1), old(plan_ctx)@) == Err::<
                                (Seq<Transformed<PlanV>>, PlanCtxV),
                                AnalyzerErrorV,
                            >(e@));
                            lemma_filter_tagging_all_err(inputs, old(plan_ctx)@, i as int);
                        }
                        return Err(e);
                    },
                }
                i += 1;
            }
            assert(inputs.take(n as int) =~= inputs);
            Ok(rebuild_union_node(plan, tfs))
        },
        _ => {
            let child = single_input(plan).unwrap();
            match tag_plan(&child, plan_ctx) {
                Ok(tf) => Ok(rebuild_single(plan, tf)),
                Err(e) => Err(e),
            }
        },
    }
}

} // verus!
