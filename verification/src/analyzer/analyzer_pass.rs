//! What every analyzer pass has in common.
use vstd::prelude::*;
use std::sync::Arc;
use crate::errors::{AnalyzerError, AnalyzerErrorV};
use crate::graph_schema::{GraphSchema, GraphSchemaV};
use crate::logical_plan::{tf_view, LogicalPlan, PlanV};
use crate::plan_ctx::{PlanCtx, PlanCtxV};
use crate::transformed::Transformed;

verus! {

/// The outcome of an analyzer pass.
pub type AnalyzerResult<T> = Result<T, AnalyzerError>;

/// The outcome of an analyzer pass as contracts see it: what became of the
/// plan, with the context after the pass; or the error.
pub type Analysis = Result<(Transformed<PlanV>, PlanCtxV), AnalyzerErrorV>;

/// The outcome of a run as contracts see it.
pub open spec fn analyzed(
    r: AnalyzerResult<Transformed<Arc<LogicalPlan>>>,
    ctx_after: PlanCtxV,
) -> Analysis {
    match r {
        Ok(tf) => Ok((tf_view(tf), ctx_after)),
        Err(e) => Err(e@),
    }
}

/// The outcome of a run that has nothing to do: the plan and the context
/// as they were.
pub open spec fn untouched(plan: PlanV, ctx: PlanCtxV) -> Analysis {
    Ok((Transformed::No(plan), ctx))
}

/// A rewrite of the plan that may read and write the context.
///
/// A pass does its work in one of the two methods: in `analyze` where it
/// needs no catalog, in `analyze_with_graph_schema` where it reads one.
/// The other method leaves the plan and the context as they are.
pub trait AnalyzerPass {
    /// `true` when `outcome` is what `analyze` may give for a plan and a
    /// context.
    spec fn analysis(&self, plan: PlanV, ctx: PlanCtxV, outcome: Analysis) -> bool;

    /// `true` when `outcome` is what `analyze_with_graph_schema` may give
    /// for a plan, a context and a catalog.
    spec fn analysis_with_graph_schema(
        &self,
        plan: PlanV,
        ctx: PlanCtxV,
        schema: GraphSchemaV,
        outcome: Analysis,
    ) -> bool;

    /// Runs the pass without a catalog. A plan that the pass does not
    /// change is handed back itself, not a copy of it.
    fn analyze(&self, logical_plan: Arc<LogicalPlan>, plan_ctx: &mut PlanCtx) -> (r: AnalyzerResult<
        Transformed<Arc<LogicalPlan>>,
    >)
        ensures
            self.analysis(logical_plan@, old(plan_ctx)@, analyzed(r, final(plan_ctx)@)),
            r matches Ok(tf) ==> (tf is No ==> tf.plan() == logical_plan),
    ;

    /// Runs the pass with a catalog. A plan that the pass does not change
    /// is handed back itself, not a copy of it.
    fn analyze_with_graph_schema(
        &self,
        logical_plan: Arc<LogicalPlan>,
        plan_ctx: &mut PlanCtx,
        graph_schema: &GraphSchema,
    ) -> (r: AnalyzerResult<Transformed<Arc<LogicalPlan>>>)
        ensures
            self.analysis_with_graph_schema(
                logical_plan@,
                old(plan_ctx)@,
                graph_schema@,
                analyzed(r, final(plan_ctx)@),
            ),
            r matches Ok(tf) ==> (tf is No ==> tf.plan() == logical_plan),
    ;
}

} // verus!
