//! Last-node tagging: the context remembers the first node of the plan
//! that a walk meets which tries the left child of a relationship first.
use vstd::prelude::*;
use std::sync::Arc;
use crate::analyzer::analyzer_pass::{untouched, Analysis, AnalyzerPass};
use crate::errors::{AnalyzerError, AnalyzerErrorV};
use crate::graph_schema::{GraphSchema, GraphSchemaV};
use crate::logical_plan::{single_input, LogicalPlan, PlanV};
use crate::plan_ctx::{PlanCtx, PlanCtxV};
use crate::transformed::Transformed;
use crate::views::Text;

verus! {

pub struct LastNodeTagging;

/// The last node after a walk of the plan: the one that was known, else
/// the alias of the first node that the walk meets. Of a relationship the
/// left child is tried first, and the right one if the left names none.
pub open spec fn tagged_last_node(p: PlanV, last: Text) -> Text
    decreases p,
{
    match p {
        PlanV::Empty => last,
        PlanV::Scan { .. } => last,
        PlanV::Union { .. } => last,
        PlanV::GraphNode { alias, .. } => if last.len() == 0 {
            alias
        } else {
            last
        },
        PlanV::GraphRel { left, right, .. } => {
            let after_left = tagged_last_node(*left, last);
            if after_left.len() == 0 {
                tagged_last_node(*right, after_left)
            } else {
                after_left
            }
        },
        _ => tagged_last_node(p.input(), last),
    }
}

impl LastNodeTagging {
    pub fn new() -> (r: Self)
        ensures
            r == LastNodeTagging,
    {
        LastNodeTagging
    }

}

impl AnalyzerPass for LastNodeTagging {
    open spec fn analysis(&self, plan: PlanV, ctx: PlanCtxV, outcome: Analysis) -> bool {
        outcome == Ok::<(Transformed<PlanV>, PlanCtxV), AnalyzerErrorV>(
            (
                Transformed::No(plan),
                PlanCtxV { last_node: tagged_last_node(plan, ctx.last_node), ..ctx },
            ),
        )
    }

    open spec fn analysis_with_graph_schema(
        &self,
        plan: PlanV,
        ctx: PlanCtxV,
        schema: GraphSchemaV,
        outcome: Analysis,
    ) -> bool {
        outcome == untouched(plan, ctx)
    }

    /// Records the last node in the context; the plan stays as it is.
    fn analyze(&self, logical_plan: Arc<LogicalPlan>, plan_ctx: &mut PlanCtx) -> (r: Result<
        Transformed<Arc<LogicalPlan>>,
        AnalyzerError,
    >)
        ensures
            r == Ok::<Transformed<Arc<LogicalPlan>>, AnalyzerError>(Transformed::No(logical_plan)),
            final(plan_ctx)@ == (PlanCtxV {
                last_node: tagged_last_node(logical_plan@, old(plan_ctx)@.last_node),
                ..old(plan_ctx)@
            }),
    {
        tag(&logical_plan, plan_ctx);
        Ok(Transformed::No(logical_plan))
    }

    /// The pass reads no catalog: its work is done by `analyze`, and this
    /// method leaves the plan and the context as they are.
    fn analyze_with_graph_schema(
        &self,
        logical_plan: Arc<LogicalPlan>,
        plan_ctx: &mut PlanCtx,
        graph_schema: &GraphSchema,
    ) -> (r: Result<Transformed<Arc<LogicalPlan>>, AnalyzerError>) {
        Ok(Transformed::No(logical_plan))
    }
}

fn tag(plan: &Arc<LogicalPlan>, plan_ctx: &mut PlanCtx)
    ensures
        final(plan_ctx)@ == (PlanCtxV {
            last_node: tagged_last_node(plan@, old(plan_ctx)@.last_node),
            ..old(plan_ctx)@
        }),
    decreases plan,
{
    match &**plan {
        LogicalPlan::Empty => {},
        LogicalPlan::Scan(_) => {},
        LogicalPlan::Union(_) => {},
        LogicalPlan::GraphNode(node) => {
            if plan_ctx.get_last_node().as_str().is_empty() {
                plan_ctx.set_last_node(node.alias.clone());
            }
        },
        LogicalPlan::GraphRel(rel) => {
            tag(&rel.left, plan_ctx);
            if plan_ctx.get_last_node().as_str().is_empty() {
                tag(&rel.right, plan_ctx);
            }
        },
        _ => {
            let child = single_input(plan).unwrap();
            tag(&child, plan_ctx);
        },
    }
}

} // verus!
