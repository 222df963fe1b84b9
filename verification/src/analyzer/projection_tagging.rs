//! Projection tagging: what the query returns of an alias is recorded in
//! the context of that alias, and `RETURN a` becomes `a.*`.
use vstd::prelude::*;
use vstd::string::StringExecFns;
use std::sync::Arc;
use crate::analyzer::analyzer_pass::{analyzed, untouched, Analysis, AnalyzerPass};
use crate::errors::{AnalyzerError, AnalyzerErrorV, Pass};
use crate::graph_schema::{GraphSchema, GraphSchemaV};
use crate::expr::{
    lemma_expr_view, Column, ExprV, PlanExpr, PropertyAccess, PropertyAccessV, TableAlias,
};
use crate::logical_plan::{
    rebuild, rebuild_graph_rel, rebuild_rel, rebuild_single, rebuild_union, rebuild_union_node,
    single_input, tf_view, tfs_view, union_input, union_len, LogicalPlan, PlanV, Projection,
    ProjectionItem, ProjectionItemV,
};
use crate::plan_ctx::{PlanCtx, PlanCtxV, TableCtxV};
use crate::transformed::Transformed;
use crate::views::{seq_view, Text};

verus! {

broadcast use lemma_expr_view;

pub struct ProjectionTagging;

/// The error for an alias that no pattern introduced.
pub open spec fn orphan(alias: Text) -> AnalyzerErrorV {
    AnalyzerErrorV::OrphanAlias { pass: Pass::ProjectionTagging, alias }
}

/// The item `*`.
pub open spec fn star_item() -> ProjectionItemV {
    ProjectionItemV { expression: ExprV::Star, col_alias: None }
}

/// `true` when one of the items is `*`.
pub open spec fn has_star(items: Seq<ProjectionItemV>) -> bool {
    exists|i: int| 0 <= i < items.len() && items[i].expression is Star
}

/// The aliases that the user wrote, as items `RETURN alias`, in the order
/// of the context.
pub open spec fn explicit_alias_items(entries: Seq<(Text, TableCtxV)>) -> Seq<ProjectionItemV>
    decreases entries.len(),
{
    if entries.len() == 0 {
        Seq::empty()
    } else if entries.last().1.explicit_alias {
        explicit_alias_items(entries.drop_last()).push(
            ProjectionItemV { expression: ExprV::TableAlias(entries.last().0), col_alias: None },
        )
    } else {
        explicit_alias_items(entries.drop_last())
    }
}

/// What tagging makes of one expression of an item: the expression that
/// takes its place, and the context after it.
///
/// - `a` becomes `a.*`; the projections of `a` become `*` alone, and a
///   relationship is then read from its edge list.
/// - `a.c` is added to the projections of `a`, under the item's alias.
/// - The operands of an operator and the arguments of a call are tagged
///   in turn, as items without an alias; the expression itself stays.
pub open spec fn tag_expr(e: ExprV, col_alias: Option<Text>, ctx: PlanCtxV) -> Result<
    (ExprV, PlanCtxV),
    AnalyzerErrorV,
>
    decreases e,
{
    match e {
        ExprV::TableAlias(a) => match ctx.get(a) {
            None => Err(orphan(a)),
            Some(t) => Ok(
                (
                    ExprV::PropertyAccess(PropertyAccessV { table_alias: a, column: "*"@ }),
                    ctx.with(
                        a,
                        TableCtxV {
                            projection_items: seq![star_item()],
                            use_edge_list: t.use_edge_list || t.is_rel,
                            ..t
                        },
                    ),
                ),
            ),
        },
        ExprV::PropertyAccess(pa) => match ctx.get(pa.table_alias) {
            None => Err(orphan(pa.table_alias)),
            Some(t) => Ok(
                (
                    e,
                    ctx.with(
                        pa.table_alias,
                        TableCtxV {
                            projection_items: t.projection_items.push(
                                ProjectionItemV { expression: e, col_alias },
                            ),
                            ..t
                        },
                    ),
                ),
            ),
        },
        ExprV::OperatorApplication(op) => match tag_nested(op.operands, ctx) {
            Err(err) => Err(err),
            Ok(c) => Ok((e, c)),
        },
        ExprV::ScalarFnCall(f) => match tag_nested(f.args, ctx) {
            Err(err) => Err(err),
            Ok(c) => Ok((e, c)),
        },
        ExprV::AggregateFnCall(f) => match tag_nested(f.args, ctx) {
            Err(err) => Err(err),
            Ok(c) => Ok((e, c)),
        },
        _ => Ok((e, ctx)),
    }
}

/// The context after the expressions were tagged in turn.
pub open spec fn tag_nested(s: Seq<ExprV>, ctx: PlanCtxV) -> Result<PlanCtxV, AnalyzerErrorV>
    decreases s,
{
    if s.len() == 0 {
        Ok(ctx)
    } else {
        match tag_nested(s.drop_last(), ctx) {
            Err(err) => Err(err),
            Ok(c) => match tag_expr(s.last(), None, c) {
                Err(err) => Err(err),
                Ok((_, c2)) => Ok(c2),
            },
        }
    }
}

/// The items after tagging, and the context after it.
pub open spec fn tag_items(items: Seq<ProjectionItemV>, ctx: PlanCtxV) -> Result<
    (Seq<ProjectionItemV>, PlanCtxV),
    AnalyzerErrorV,
>
    decreases items.len(),
{
    if items.len() == 0 {
        Ok((Seq::empty(), ctx))
    } else {
        match tag_items(items.drop_last(), ctx) {
            Err(err) => Err(err),
            Ok((done, c)) => match tag_expr(items.last().expression, items.last().col_alias, c) {
                Err(err) => Err(err),
                Ok((e, c2)) => Ok(
                    (done.push(ProjectionItemV { expression: e, col_alias: items.last().col_alias }), c2),
                ),
            },
        }
    }
}

/// What the pass makes of a plan and a context: the outermost projection
/// on each path is tagged, `RETURN *` standing for every alias that the
/// user wrote.
pub open spec fn projection_tagging(p: PlanV, ctx: PlanCtxV) -> Result<
    (Transformed<PlanV>, PlanCtxV),
    AnalyzerErrorV,
>
    decreases p,
{
    match p {
        PlanV::Empty => Ok((Transformed::No(p), ctx)),
        PlanV::Scan { .. } => Ok((Transformed::No(p), ctx)),
        PlanV::Projection { input, items } => {
            let chosen = if has_star(items) {
                explicit_alias_items(ctx.entries)
            } else {
                items
            };
            match tag_items(chosen, ctx) {
                Err(e) => Err(e),
                Ok((tagged, c)) => Ok(
                    (Transformed::Yes(PlanV::Projection { input, items: tagged }), c),
                ),
            }
        },
        PlanV::GraphRel { left, center, right, .. } => match projection_tagging(*left, ctx) {
            Err(e) => Err(e),
            Ok((left_tf, c1)) => match projection_tagging(*center, c1) {
                Err(e) => Err(e),
                Ok((center_tf, c2)) => match projection_tagging(*right, c2) {
                    Err(e) => Err(e),
                    Ok((right_tf, c3)) => Ok((rebuild_rel(p, left_tf, center_tf, right_tf), c3)),
                },
            },
        },
        PlanV::Union { inputs } => match projection_tagging_all(inputs, ctx) {
            Err(e) => Err(e),
            Ok((tfs, c)) => Ok((rebuild_union(p, tfs), c)),
        },
        _ => match projection_tagging(p.input(), ctx) {
            Err(e) => Err(e),
            Ok((tf, c)) => Ok((rebuild(p, tf), c)),
        },
    }
}

pub open spec fn projection_tagging_all(s: Seq<PlanV>, ctx: PlanCtxV) -> Result<
    (Seq<Transformed<PlanV>>, PlanCtxV),
    AnalyzerErrorV,
>
    decreases s,
{
    if s.len() == 0 {
        Ok((Seq::empty(), ctx))
    } else {
        match projection_tagging_all(s.drop_last(), ctx) {
            Err(e) => Err(e),
            Ok((tfs, c)) => match projection_tagging(s.last(), c) {
                Err(e) => Err(e),
                Ok((tf, c2)) => Ok((tfs.push(tf), c2)),
            },
        }
    }
}

proof fn lemma_tag_nested_err(s: Seq<ExprV>, ctx: PlanCtxV, i: int)
    requires
        0 <= i < s.len(),
        tag_nested(s.take(i + 1), ctx) is Err,
    ensures
        tag_nested(s, ctx) == tag_nested(s.take(i + 1), ctx),
    decreases s.len() - i,
{
    if i + 1 < s.len() {
        assert(s.take(i + 2).drop_last() =~= s.take(i + 1));
        lemma_tag_nested_err(s, ctx, i + 1);
    } else {
        assert(s.take(i + 1) =~= s);
    }
}

proof fn lemma_tag_items_err(s: Seq<ProjectionItemV>, ctx: PlanCtxV, i: int)
    requires
        0 <= i < s.len(),
        tag_items(s.take(i + 1), ctx) is Err,
    ensures
        tag_items(s, ctx) is Err,
        tag_items(s, ctx)->Err_0 == tag_items(s.take(i + 1), ctx)->Err_0,
    decreases s.len() - i,
{
    if i + 1 < s.len() {
        assert(s.take(i + 2).drop_last() =~= s.take(i + 1));
        lemma_tag_items_err(s, ctx, i + 1);
    } else {
        assert(s.take(i + 1) =~= s);
    }
}

proof fn lemma_projection_tagging_all_err(s: Seq<PlanV>, ctx: PlanCtxV, i: int)
    requires
        0 <= i < s.len(),
        projection_tagging_all(s.take(i + 1), ctx) is Err,
    ensures
        projection_tagging_all(s, ctx) is Err,
        projection_tagging_all(s, ctx)->Err_0 == projection_tagging_all(s.take(i + 1), ctx)->Err_0,
    decreases s.len() - i,
{
    if i + 1 < s.len() {
        assert(s.take(i + 2).drop_last() =~= s.take(i + 1));
        lemma_projection_tagging_all_err(s, ctx, i + 1);
    } else {
        assert(s.take(i + 1) =~= s);
    }
}

fn orphan_error(alias: &String) -> (e: AnalyzerError)
    ensures
        e@ == orphan(alias@),
{
    AnalyzerError::OrphanAlias { pass: Pass::ProjectionTagging, alias: alias.clone() }
}

/// The outcome of tagging one expression as contracts see it.
pub open spec fn tagged_expr(r: Result<PlanExpr, AnalyzerError>, ctx_after: PlanCtxV) -> Result<
    (ExprV, PlanCtxV),
    AnalyzerErrorV,
> {
    match r {
        Ok(e) => Ok((e@, ctx_after)),
        Err(e) => Err(e@),
    }
}

fn tag_args(args: &Vec<PlanExpr>, plan_ctx: &mut PlanCtx) -> (r: Result<(), AnalyzerError>)
    ensures
        match r {
            Ok(_) => tag_nested(seq_view(args@), old(plan_ctx)@) == Ok::<PlanCtxV, AnalyzerErrorV>(
                final(plan_ctx)@,
            ),
            Err(e) => tag_nested(seq_view(args@), old(plan_ctx)@) == Err::<
                PlanCtxV,
                AnalyzerErrorV,
            >(e@),
        },
    decreases args,
{
    let mut i: usize = 0;
    let ghost s = seq_view(args@);
    assert(s.take(0) =~= Seq::empty());
    while i < args.len()
        invariant
            i <= args.len(),
            s == seq_view(args@),
            tag_nested(s.take(i as int), old(plan_ctx)@) == Ok::<PlanCtxV, AnalyzerErrorV>(
                plan_ctx@,
            ),
        decreases args.len() - i,
    {
        proof {
            assert(s.take(i + 1).drop_last() =~= s.take(i as int));
            assert(s.take(i + 1).last() == args@[i as int]@);
        }
        match tag_projection(&args[i], &None, plan_ctx) {
            Ok(_) => {},
            Err(e) => {
                proof {
                    assert(tag_nested(s.take(i + 1), old(plan_ctx)@) == Err::<
                        PlanCtxV,
                        AnalyzerErrorV,
                    >(e@));
                    lemma_tag_nested_err(s, old(plan_ctx)@, i as int);
                }
                return Err(e);
            },
        }
        i += 1;
    }
    assert(s.take(args.len() as int) =~= s);
    Ok(())
}

fn tag_projection(
    expr: &PlanExpr,
    col_alias: &Option<crate::expr::ColumnAlias>,
    plan_ctx: &mut PlanCtx,
) -> (r: Result<PlanExpr, AnalyzerError>)
    ensures
        tagged_expr(r, final(plan_ctx)@) == tag_expr(
            expr@,
            crate::views::opt_view(*col_alias),
            old(plan_ctx)@,
        ),
    decreases expr,
{
    match expr {
        PlanExpr::TableAlias(table_alias) => {
            match plan_ctx.get_mut_table_ctx_opt(table_alias.0.as_str()) {
                Some(table_ctx) => {
                    let star = vec![ProjectionItem { expression: PlanExpr::Star, col_alias: None }];
                    assert(seq_view(star@) =~= seq![star_item()]);
                    table_ctx.set_projections(star);
                    if table_ctx.is_relation() {
                        table_ctx.set_use_edge_list(true);
                    }
                    Ok(
                        PlanExpr::PropertyAccessExp(
                            PropertyAccess {
                                table_alias: TableAlias(table_alias.0.clone()),
                                column: Column(String::from_str("*")),
                            },
                        ),
                    )
                },
                None => Err(orphan_error(&table_alias.0)),
            }
        },
        PlanExpr::PropertyAccessExp(pa) => {
            match plan_ctx.get_mut_table_ctx_opt(pa.table_alias.0.as_str()) {
                Some(table_ctx) => {
                    table_ctx.push_projection(
                        ProjectionItem {
                            expression: expr.deep_clone(),
                            col_alias: match col_alias {
                                Some(a) => Some(crate::expr::ColumnAlias(a.0.clone())),
                                None => None,
                            },
                        },
                    );
                    Ok(expr.deep_clone())
                },
                None => Err(orphan_error(&pa.table_alias.0)),
            }
        },
        PlanExpr::OperatorApplicationExp(op) => match tag_args(&op.operands, plan_ctx) {
            Ok(_) => Ok(expr.deep_clone()),
            Err(e) => Err(e),
        },
        PlanExpr::ScalarFnCall(f) => match tag_args(&f.args, plan_ctx) {
            Ok(_) => Ok(expr.deep_clone()),
            Err(e) => Err(e),
        },
        PlanExpr::AggregateFnCall(f) => match tag_args(&f.args, plan_ctx) {
            Ok(_) => Ok(expr.deep_clone()),
            Err(e) => Err(e),
        },
        _ => Ok(expr.deep_clone()),
    }
}

/// The outcome of tagging a list of items as contracts see it.
pub open spec fn tagged_items(r: Result<Vec<ProjectionItem>, AnalyzerError>, ctx_after: PlanCtxV) -> Result<
    (Seq<ProjectionItemV>, PlanCtxV),
    AnalyzerErrorV,
> {
    match r {
        Ok(items) => Ok((seq_view(items@), ctx_after)),
        Err(e) => Err(e@),
    }
}

fn tag_all(items: &Vec<ProjectionItem>, plan_ctx: &mut PlanCtx) -> (r: Result<
    Vec<ProjectionItem>,
    AnalyzerError,
>)
    ensures
        tagged_items(r, final(plan_ctx)@) == tag_items(seq_view(items@), old(plan_ctx)@),
{
    let mut out: Vec<ProjectionItem> = Vec::new();
    let mut i: usize = 0;
    let ghost s = seq_view(items@);
    assert(s.take(0) =~= Seq::empty());
    assert(seq_view(out@) =~= Seq::empty());
    while i < items.len()
        invariant
            i <= items.len(),
            s == seq_view(items@),
            tag_items(s.take(i as int), old(plan_ctx)@) == Ok::<
                (Seq<ProjectionItemV>, PlanCtxV),
                AnalyzerErrorV,
            >((seq_view(out@), plan_ctx@)),
        decreases items.len() - i,
    {
        proof {
            assert(s.take(i + 1).drop_last() =~= s.take(i as int));
            assert(s.take(i + 1).last() == items@[i as int]@);
        }
        match tag_projection(&items[i].expression, &items[i].col_alias, plan_ctx) {
            Ok(e) => {
                let item = ProjectionItem {
                    expression: e,
                    col_alias: match &items[i].col_alias {
                        Some(a) => Some(crate::expr::ColumnAlias(a.0.clone())),
                        None => None,
                    },
                };
                let ghost prev = out@;
                out.push(item);
                assert(seq_view(out@) =~= seq_view(prev).push(item@));
            },
            Err(e) => {
                proof {
                    assert(tag_items(s.take(i + 1), old(plan_ctx)@) == Err::<
                        (Seq<ProjectionItemV>, PlanCtxV),
                        AnalyzerErrorV,
                    >(e@));
                    lemma_tag_items_err(s, old(plan_ctx)@, i as int);
                }
                return Err(e);
            },
        }
        i += 1;
    }
    assert(s.take(items.len() as int) =~= s);
    Ok(out)
}

impl ProjectionTagging {
    pub fn new() -> (r: Self)
        ensures
            r == ProjectionTagging,
    {
        ProjectionTagging
    }

    /// `true` when one of the items is `*`.
    pub fn select_all_present(&self, projection_items: &Vec<ProjectionItem>) -> (r: bool)
        ensures
            r == has_star(seq_view(projection_items@)),
    {
        let mut i: usize = 0;
        while i < projection_items.len()
            invariant
                i <= projection_items.len(),
                forall|j: int| 0 <= j < i ==> !(seq_view(projection_items@)[j].expression is Star),
            decreases projection_items.len() - i,
        {
            if projection_items[i].expression.is_star() {
                assert(seq_view(projection_items@)[i as int].expression is Star);
                return true;
            }
            i += 1;
        }
        false
    }

    /// The aliases that the user wrote, as items `RETURN alias`.
    pub fn get_explicit_aliases(&self, plan_ctx: &PlanCtx) -> (r: Vec<ProjectionItem>)
        ensures
            seq_view(r@) == explicit_alias_items(plan_ctx@.entries),
    {
        let entries = plan_ctx.get_alias_table_ctx_map();
        let ghost ev = plan_ctx@.entries;
        let mut out: Vec<ProjectionItem> = Vec::new();
        let mut i: usize = 0;
        assert(ev.take(0) =~= Seq::empty());
        assert(seq_view(out@) =~= Seq::empty());
        while i < entries.len()
            invariant
                i <= entries.len(),
                ev == crate::assoc::entries_view(entries@),
                seq_view(out@) == explicit_alias_items(ev.take(i as int)),
            decreases entries.len() - i,
        {
            proof {
                assert(ev.take(i + 1).drop_last() =~= ev.take(i as int));
                assert(ev.take(i + 1).last() == (entries@[i as int].0@, entries@[i as int].1@));
            }
            if entries[i].1.is_explicit_alias() {
                let item = ProjectionItem {
                    expression: PlanExpr::TableAlias(TableAlias(entries[i].0.clone())),
                    col_alias: None,
                };
                let ghost prev = out@;
                out.push(item);
                assert(seq_view(out@) =~= seq_view(prev).push(item@));
            }
            i += 1;
        }
        assert(ev.take(entries.len() as int) =~= ev);
        out
    }

    fn tag_plan(&self, plan: &Arc<LogicalPlan>, plan_ctx: &mut PlanCtx) -> (r: Result<
        Transformed<Arc<LogicalPlan>>,
        AnalyzerError,
    >)
        ensures
            analyzed(r, final(plan_ctx)@) == projection_tagging(plan@, old(plan_ctx)@),
            r matches Ok(tf) ==> (tf is No ==> tf.plan() == *plan),
        decreases plan,
    {
        match &**plan {
            LogicalPlan::Empty => Ok(Transformed::No(plan.clone())),
            LogicalPlan::Scan(_) => Ok(Transformed::No(plan.clone())),
            LogicalPlan::Projection(projection) => {
                let tagged = if self.select_all_present(&projection.items) {
                    let chosen = self.get_explicit_aliases(plan_ctx);
                    tag_all(&chosen, plan_ctx)
                } else {
                    tag_all(&projection.items, plan_ctx)
                };
                match tagged {
                    Ok(items) => Ok(
                        Transformed::Yes(
                            Arc::new(
                                LogicalPlan::Projection(
                                    Projection { input: projection.input.clone(), items },
                                ),
                            ),
                        ),
                    ),
                    Err(e) => Err(e),
                }
            },
            LogicalPlan::GraphRel(rel) => {
                let left_tf = match self.tag_plan(&rel.left, plan_ctx) {
                    Ok(tf) => tf,
                    Err(e) => {
                        return Err(e);
                    },
                };
                let center_tf = match self.tag_plan(&rel.center, plan_ctx) {
                    Ok(tf) => tf,
                    Err(e) => {
                        return Err(e);
                    },
                };
                let right_tf = match self.tag_plan(&rel.right, plan_ctx) {
                    Ok(tf) => tf,
                    Err(e) => {
                        return Err(e);
                    },
                };
                Ok(rebuild_graph_rel(plan, left_tf, center_tf, right_tf))
            },
            LogicalPlan::Union(_) => {
                let n = union_len(plan);
                let mut tfs: Vec<Transformed<Arc<LogicalPlan>>> = Vec::new();
                let mut i: usize = 0;
                let ghost inputs = plan@->inputs;
                assert(inputs.take(0) =~= Seq::empty());
                assert(tfs_view(tfs@) =~= Seq::empty());
                while i < n
                    invariant
                        i <= n,
                        plan@ is Union,
                        inputs == plan@->inputs,
                        n == inputs.len(),
                        projection_tagging_all(inputs.take(i as int), old(plan_ctx)@) == Ok::<
                            (Seq<Transformed<PlanV>>, PlanCtxV),
                            AnalyzerErrorV,
                        >((tfs_view(tfs@), plan_ctx@)),
                    decreases n - i,
                {
                    let child = union_input(plan, i);
                    proof {
                        assert(inputs.take(i + 1).drop_last() =~= inputs.take(i as int));
                    }
                    match self.tag_plan(&child, plan_ctx) {
                        Ok(tf) => {
                            proof {
                                assert(tfs_view(tfs@.push(tf)) =~= tfs_view(tfs@).push(
                                    tf_view(tf),
                                ));
                            }
                            tfs.push(tf);
                        },
                        Err(e) => {
                            proof {
                                assert(projection_tagging_all(
                                    inputs.take(i + 1),
                                    old(plan_ctx)@,
                                ) == Err::<(Seq<Transformed<PlanV>>, PlanCtxV), AnalyzerErrorV>(
                                    e@,
                                ));
                                lemma_projection_tagging_all_err(inputs, old(plan_ctx)@, i as int);
                            }
                            return Err(e);
                        },
                    }
                    i += 1;
                }
                assert(inputs.take(n as int) =~= inputs);
                Ok(rebuild_union_node(plan, tfs))
            },
            _ => {
                let child = single_input(plan).unwrap();
                match self.tag_plan(&child, plan_ctx) {
                    Ok(tf) => Ok(rebuild_single(plan, tf)),
                    Err(e) => Err(e),
                }
            },
        }
    }
}

impl AnalyzerPass for ProjectionTagging {
    open spec fn analysis(&self, plan: PlanV, ctx: PlanCtxV, outcome: Analysis) -> bool {
        outcome == projection_tagging(plan, ctx)
    }

    open spec fn analysis_with_graph_schema(
        &self,
        plan: PlanV,
        ctx: PlanCtxV,
        schema: GraphSchemaV,
        outcome: Analysis,
    ) -> bool {
        outcome == untouched(plan, ctx)
    }

    /// Runs the pass on a plan.
    fn analyze(&self, logical_plan: Arc<LogicalPlan>, plan_ctx: &mut PlanCtx) -> (r: Result<
        Transformed<Arc<LogicalPlan>>,
        AnalyzerError,
    >)
        ensures
            analyzed(r, final(plan_ctx)@) == projection_tagging(logical_plan@, old(plan_ctx)@),
            r matches Ok(tf) ==> (tf is No ==> tf.plan() == logical_plan),
    {
        self.tag_plan(&logical_plan, plan_ctx)
    }

    /// The pass reads no catalog: its work is done by `analyze`, and this
    /// method leaves the plan and the context as they are.
    fn analyze_with_graph_schema(
        &self,
        logical_plan: Arc<LogicalPlan>,
        plan_ctx: &mut PlanCtx,
        graph_schema: &GraphSchema,
    ) -> (r: Result<Transformed<Arc<LogicalPlan>>, AnalyzerError>) {
        Ok(Transformed::No(logical_plan))
    }
}

} // verus!
