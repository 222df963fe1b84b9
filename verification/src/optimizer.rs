//! The optimizer passes, and the two groups in which planning runs
//! them.
use vstd::prelude::*;
use std::sync::Arc;
use crate::errors::OptimizerError;
use crate::logical_plan::{LogicalPlan, PlanV};
use crate::optimizer::optimizer_pass::OptimizerPass;
use crate::plan_ctx::{PlanCtx, PlanCtxV};

pub mod anchor_node_selection;
pub mod filter_push_down;
pub mod optimizer_pass;
pub mod projection_push_down;

verus! {

/// What the last group makes of a plan: projection push-down, then filter
/// push-down.
pub open spec fn final_optimized(p: PlanV, ctx: PlanCtxV) -> PlanV {
    filter_push_down::filter_push_down(
        projection_push_down::projection_push_down(p, ctx).plan(),
        ctx,
    ).plan()
}

/// The first group of optimizer passes: anchor node selection.
pub fn initial_optimization(plan: Arc<LogicalPlan>, plan_ctx: &mut PlanCtx) -> (r: Result<
    Arc<LogicalPlan>,
    OptimizerError,
>)
    ensures
        r matches Ok(p) && (*p)@ == anchor_node_selection::anchor_node_selection(
            plan@,
            old(plan_ctx)@,
        ).plan(),
        *final(plan_ctx) == *old(plan_ctx),
{
    let anchor_node_selection = anchor_node_selection::AnchorNodeSelection::new();
    match anchor_node_selection.optimize(plan, plan_ctx) {
        Ok(tf) => Ok(tf.get_plan()),
        Err(e) => Err(e),
    }
}

/// The last group of optimizer passes: projection push-down, then filter
/// push-down.
pub fn final_optimization(plan: Arc<LogicalPlan>, plan_ctx: &mut PlanCtx) -> (r: Result<
    Arc<LogicalPlan>,
    OptimizerError,
>)
    ensures
        r matches Ok(p) && (*p)@ == final_optimized(plan@, old(plan_ctx)@),
        *final(plan_ctx) == *old(plan_ctx),
{
    let projection_push_down = projection_push_down::ProjectionPushDown::new();
    let plan = match projection_push_down.optimize(plan, plan_ctx) {
        Ok(tf) => tf.get_plan(),
        Err(e) => {
            return Err(e);
        },
    };
    let filter_push_down = filter_push_down::FilterPushDown::new();
    match filter_push_down.optimize(plan, plan_ctx) {
        Ok(tf) => Ok(tf.get_plan()),
        Err(e) => Err(e),
    }
}

} // verus!
