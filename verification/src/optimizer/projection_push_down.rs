//! Projection push-down: every scan whose alias has pushed-down projections
//! is wrapped in a projection of exactly those items.
use vstd::prelude::*;
use std::sync::Arc;
use crate::errors::OptimizerError;
use crate::optimizer::optimizer_pass::OptimizerPass;
use crate::logical_plan::{
    clone_items, rebuild, rebuild_graph_rel, rebuild_rel, rebuild_single, rebuild_union,
    rebuild_union_node, single_input, tf_view, tfs_view, union_input, union_len, LogicalPlan,
    PlanV, Projection,
};
use crate::plan_ctx::{PlanCtx, PlanCtxV};
use crate::transformed::Transformed;

verus! {

pub struct ProjectionPushDown;

/// What the pass makes of a plan.
pub open spec fn projection_push_down(p: PlanV, ctx: PlanCtxV) -> Transformed<PlanV>
    decreases p,
{
    match p {
        PlanV::Empty => Transformed::No(p),
        PlanV::Scan { table_alias, .. } => match ctx.get(table_alias) {
            Some(t) => if t.projection_items.len() > 0 {
                Transformed::Yes(
                    PlanV::Projection { input: Box::new(p), items: t.projection_items },
                )
            } else {
                Transformed::No(p)
            },
            None => Transformed::No(p),
        },
        PlanV::GraphRel { left, center, right, .. } => rebuild_rel(
            p,
            projection_push_down(*left, ctx),
            projection_push_down(*center, ctx),
            projection_push_down(*right, ctx),
        ),
        PlanV::Union { inputs } => rebuild_union(p, projection_push_down_all(inputs, ctx)),
        _ => rebuild(p, projection_push_down(p.input(), ctx)),
    }
}

/// What the pass makes of each plan of a sequence.
pub open spec fn projection_push_down_all(s: Seq<PlanV>, ctx: PlanCtxV) -> Seq<Transformed<PlanV>>
    decreases s,
{
    if s.len() == 0 {
        Seq::empty()
    } else {
        projection_push_down_all(s.drop_last(), ctx).push(projection_push_down(s.last(), ctx))
    }
}

impl ProjectionPushDown {
    pub fn new() -> (r: Self)
        ensures
            r == ProjectionPushDown,
    {
        ProjectionPushDown
    }

}

fn push(plan: &Arc<LogicalPlan>, ctx: &PlanCtx) -> (r: Transformed<Arc<LogicalPlan>>)
    ensures
        tf_view(r) == projection_push_down(plan@, ctx@),
        r is No ==> r.plan() == *plan,
    decreases plan,
{
    match &**plan {
        LogicalPlan::Empty => Transformed::No(plan.clone()),
        LogicalPlan::Scan(scan) => {
            match ctx.get_table_ctx_opt(scan.table_alias.as_str()) {
                Some(table_ctx) => {
                    if table_ctx.get_projections().len() > 0 {
                        Transformed::Yes(
                            Arc::new(
                                LogicalPlan::Projection(
                                    Projection {
                                        input: plan.clone(),
                                        items: clone_items(table_ctx.get_projections()),
                                    },
                                ),
                            ),
                        )
                    } else {
                        Transformed::No(plan.clone())
                    }
                },
                None => Transformed::No(plan.clone()),
            }
        },
        LogicalPlan::GraphRel(rel) => {
            let left_tf = push(&rel.left, ctx);
            let center_tf = push(&rel.center, ctx);
            let right_tf = push(&rel.right, ctx);
            rebuild_graph_rel(plan, left_tf, center_tf, right_tf)
        },
        LogicalPlan::Union(_) => {
            let n = union_len(plan);
            let mut tfs: Vec<Transformed<Arc<LogicalPlan>>> = Vec::new();
            let mut i: usize = 0;
            let ghost inputs = plan@->inputs;
            while i < n
                invariant
                    i <= n,
                    plan@ is Union,
                    inputs == plan@->inputs,
                    n == inputs.len(),
                    tfs_view(tfs@) == projection_push_down_all(inputs.take(i as int), ctx@),
                decreases n - i,
            {
                let child = union_input(plan, i);
                let tf = push(&child, ctx);
                proof {
                    assert(inputs.take(i + 1).drop_last() =~= inputs.take(i as int));
                    assert(tfs_view(tfs@.push(tf)) =~= tfs_view(tfs@).push(tf_view(tf)));
                }
                tfs.push(tf);
                i += 1;
            }
            assert(inputs.take(n as int) =~= inputs);
            rebuild_union_node(plan, tfs)
        },
        _ => {
            let child = single_input(plan).unwrap();
            let tf = push(&child, ctx);
            rebuild_single(plan, tf)
        },
    }
}

impl OptimizerPass for ProjectionPushDown {
    open spec fn optimized(&self, plan: PlanV, ctx: PlanCtxV) -> Transformed<PlanV> {
        projection_push_down(plan, ctx)
    }

    /// Wraps every scan that has pushed-down projections. A plan that holds
    /// no such scan comes back as it is.
    fn optimize(&self, logical_plan: Arc<LogicalPlan>, plan_ctx: &mut PlanCtx) -> (r: Result<
        Transformed<Arc<LogicalPlan>>,
        OptimizerError,
    >) {
        Ok(push(&logical_plan, plan_ctx))
    }
}

} // verus!
