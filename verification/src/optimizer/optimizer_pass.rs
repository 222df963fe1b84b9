//! What every optimizer pass has in common.
use vstd::prelude::*;
use std::sync::Arc;
use crate::errors::OptimizerError;
use crate::logical_plan::{tf_view, LogicalPlan, PlanV};
use crate::plan_ctx::{PlanCtx, PlanCtxV};
use crate::transformed::Transformed;

verus! {

/// The outcome of an optimizer pass.
pub type OptimizerResult<T> = Result<T, OptimizerError>;

/// A rewrite of the plan that reads the context and leaves it as it is.
pub trait OptimizerPass {
    /// What the pass makes of a plan, given the context.
    spec fn optimized(&self, plan: PlanV, ctx: PlanCtxV) -> Transformed<PlanV>;

    /// Runs the pass. A plan that the pass does not change is handed back
    /// itself, not a copy of it.
    fn optimize(&self, logical_plan: Arc<LogicalPlan>, plan_ctx: &mut PlanCtx) -> (r:
        OptimizerResult<Transformed<Arc<LogicalPlan>>>)
        ensures
            r matches Ok(tf) && tf_view(tf) == self.optimized(logical_plan@, old(plan_ctx)@) && (tf is No
                ==> tf.plan() == logical_plan),
            *final(plan_ctx) == *old(plan_ctx),
    ;
}

} // verus!
