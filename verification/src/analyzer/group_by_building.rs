//! Group-by construction: where the returned items mix aggregates with
//! other expressions, the other expressions become the grouping keys.
use vstd::prelude::*;
use std::sync::Arc;
use crate::analyzer::analyzer_pass::{untouched, Analysis, AnalyzerPass};
use crate::errors::{AnalyzerError, AnalyzerErrorV};
use crate::graph_schema::{GraphSchema, GraphSchemaV};
use crate::expr::{has_aggregate, ExprV, PlanExpr};
use crate::logical_plan::{
    rebuild, rebuild_graph_rel, rebuild_rel, rebuild_single, rebuild_union, rebuild_union_node,
    single_input, tf_view, tfs_view, union_input, union_len, GroupBy, LogicalPlan, PlanV,
    ProjectionItem, ProjectionItemV,
};
use crate::plan_ctx::{PlanCtx, PlanCtxV};
use crate::transformed::Transformed;
use crate::views::seq_view;

verus! {

pub struct GroupByBuilding;

/// The expressions of the items that hold no aggregate call, in order.
pub open spec fn non_aggregate_exprs(items: Seq<ProjectionItemV>) -> Seq<ExprV>
    decreases items.len(),
{
    if items.len() == 0 {
        Seq::empty()
    } else if has_aggregate(items.last().expression) {
        non_aggregate_exprs(items.drop_last())
    } else {
        non_aggregate_exprs(items.drop_last()).push(items.last().expression)
    }
}

/// What the pass makes of a plan: the first projection on the way down
/// that mixes aggregates with other items gets a `GroupBy` above it.
pub open spec fn group_by_building(p: PlanV) -> Transformed<PlanV>
    decreases p,
{
    match p {
        PlanV::Empty => Transformed::No(p),
        PlanV::Scan { .. } => Transformed::No(p),
        PlanV::Projection { input, items } => {
            let keys = non_aggregate_exprs(items);
            if keys.len() < items.len() && keys.len() > 0 {
                Transformed::Yes(PlanV::GroupBy { input: Box::new(p), expressions: keys })
            } else {
                rebuild(p, group_by_building(*input))
            }
        },
        PlanV::GraphRel { left, center, right, .. } => rebuild_rel(
            p,
            group_by_building(*left),
            group_by_building(*center),
            group_by_building(*right),
        ),
        PlanV::Union { inputs } => rebuild_union(p, group_by_building_all(inputs)),
        _ => rebuild(p, group_by_building(p.input())),
    }
}

/// What the pass makes of each plan of a sequence.
pub open spec fn group_by_building_all(s: Seq<PlanV>) -> Seq<Transformed<PlanV>>
    decreases s,
{
    if s.len() == 0 {
        Seq::empty()
    } else {
        group_by_building_all(s.drop_last()).push(group_by_building(s.last()))
    }
}

fn collect_keys(items: &Vec<ProjectionItem>) -> (keys: Vec<PlanExpr>)
    ensures
        seq_view(keys@) == non_aggregate_exprs(seq_view(items@)),
{
    let mut keys: Vec<PlanExpr> = Vec::new();
    let mut i: usize = 0;
    assert(seq_view(keys@) =~= Seq::empty());
    while i < items.len()
        invariant
            i <= items.len(),
            seq_view(keys@) == non_aggregate_exprs(seq_view(items@).take(i as int)),
        decreases items.len() - i,
    {
        proof {
            assert(seq_view(items@).take(i + 1).drop_last() =~= seq_view(items@).take(i as int));
        }
        if !items[i].expression.contains_aggregate() {
            let e = items[i].expression.deep_clone();
            let ghost prev = keys@;
            keys.push(e);
            assert(seq_view(keys@) =~= seq_view(prev).push(e@));
        }
        i += 1;
    }
    assert(seq_view(items@).take(items.len() as int) =~= seq_view(items@));
    keys
}

impl GroupByBuilding {
    pub fn new() -> (r: Self)
        ensures
            r == GroupByBuilding,
    {
        GroupByBuilding
    }

}

impl AnalyzerPass for GroupByBuilding {
    open spec fn analysis(&self, plan: PlanV, ctx: PlanCtxV, outcome: Analysis) -> bool {
        outcome == Ok::<(Transformed<PlanV>, PlanCtxV), AnalyzerErrorV>(
            (group_by_building(plan), ctx),
        )
    }

    open spec fn analysis_with_graph_schema(
        &self,
        plan: PlanV,
        ctx: PlanCtxV,
        schema: GraphSchemaV,
        outcome: Analysis,
    ) -> bool {
        outcome == untouched(plan, ctx)
    }

    fn analyze(&self, logical_plan: Arc<LogicalPlan>, plan_ctx: &mut PlanCtx) -> (r: Result<
        Transformed<Arc<LogicalPlan>>,
        AnalyzerError,
    >)
        ensures
            r matches Ok(tf) && tf_view(tf) == group_by_building(logical_plan@) && (tf is No
                ==> tf.plan() == logical_plan),
            *final(plan_ctx) == *old(plan_ctx),
    {
        Ok(build(&logical_plan))
    }

    /// The pass reads no catalog: its work is done by `analyze`, and this
    /// method leaves the plan and the context as they are.
    fn analyze_with_graph_schema(
        &self,
        logical_plan: Arc<LogicalPlan>,
        plan_ctx: &mut PlanCtx,
        graph_schema: &GraphSchema,
    ) -> (r: Result<Transformed<Arc<LogicalPlan>>, AnalyzerError>) {
        Ok(Transformed::No(logical_plan))
    }
}

fn build(plan: &Arc<LogicalPlan>) -> (r: Transformed<Arc<LogicalPlan>>)
    ensures
        tf_view(r) == group_by_building(plan@),
        r is No ==> r.plan() == *plan,
    decreases plan,
{
    match &**plan {
        LogicalPlan::Empty => Transformed::No(plan.clone()),
        LogicalPlan::Scan(_) => Transformed::No(plan.clone()),
        LogicalPlan::Projection(projection) => {
            let keys = collect_keys(&projection.items);
            if keys.len() < projection.items.len() && keys.len() > 0 {
                Transformed::Yes(
                    Arc::new(LogicalPlan::GroupBy(GroupBy { input: plan.clone(), expressions: keys })),
                )
            } else {
                let child_tf = build(&projection.input);
                rebuild_single(plan, child_tf)
            }
        },
        LogicalPlan::GraphRel(rel) => {
            let left_tf = build(&rel.left);
            let center_tf = build(&rel.center);
            let right_tf = build(&rel.right);
            rebuild_graph_rel(plan, left_tf, center_tf, right_tf)
        },
        LogicalPlan::Union(_) => {
            let n = union_len(plan);
            let mut tfs: Vec<Transformed<Arc<LogicalPlan>>> = Vec::new();
            let mut i: usize = 0;
            let ghost inputs = plan@->inputs;
            while i < n
                invariant
                    i <= n,
                    plan@ is Union,
                    inputs == plan@->inputs,
                    n == inputs.len(),
                    tfs_view(tfs@) == group_by_building_all(inputs.take(i as int)),
                decreases n - i,
            {
                let child = union_input(plan, i);
                let tf = build(&child);
                proof {
                    assert(inputs.take(i + 1).drop_last() =~= inputs.take(i as int));
                    assert(tfs_view(tfs@.push(tf)) =~= tfs_view(tfs@).push(tf_view(tf)));
                }
                tfs.push(tf);
                i += 1;
            }
            assert(inputs.take(n as int) =~= inputs);
            rebuild_union_node(plan, tfs)
        },
        _ => {
            let child = single_input(plan).unwrap();
            let child_tf = build(&child);
            rebuild_single(plan, child_tf)
        },
    }
}

} // verus!
