//! Duplicate-scan removal: a node alias is scanned once; where a
//! relationship meets an alias that was scanned before, its left child
//! gives way to `Empty`.
use vstd::prelude::*;
use std::sync::Arc;
use crate::analyzer::analyzer_pass::{untouched, Analysis, AnalyzerPass};
use crate::errors::{AnalyzerError, AnalyzerErrorV};
use crate::graph_schema::{GraphSchema, GraphSchemaV};
use crate::logical_plan::{
    rebuild, rebuild_graph_rel, rebuild_rel, rebuild_single, rebuild_union, rebuild_union_node,
    single_input, tf_view, tfs_view, union_input, union_len, LogicalPlan, PlanV,
};
use crate::plan_ctx::{PlanCtx, PlanCtxV};
use crate::transformed::Transformed;
use crate::views::{contains_text, insert_text, text_set, Text};

verus! {

pub struct DuplicateScansRemoving;

/// What the pass makes of a plan, given the node aliases met so far, and
/// the node aliases met after it. Of a relationship the right child is
/// visited first, then the center, then the left.
pub open spec fn dedup(p: PlanV, seen: Set<Text>) -> (Transformed<PlanV>, Set<Text>)
    decreases p,
{
    match p {
        PlanV::Empty => (Transformed::No(p), seen),
        PlanV::Scan { .. } => (Transformed::No(p), seen),
        PlanV::GraphNode { input, alias, .. } => {
            let (tf, s) = dedup(*input, seen.insert(alias));
            (rebuild(p, tf), s)
        },
        PlanV::GraphRel { left, center, right, left_connection, .. } => {
            let (right_tf, s1) = dedup(*right, seen);
            let (center_tf, s2) = dedup(*center, s1);
            let (left_tf, s3) = if s2.contains(left_connection) {
                (Transformed::Yes(PlanV::Empty), s2)
            } else {
                dedup(*left, s2)
            };
            (rebuild_rel(p, left_tf, center_tf, right_tf), s3)
        },
        PlanV::Union { inputs } => {
            let (tfs, s) = dedup_all(inputs, seen);
            (rebuild_union(p, tfs), s)
        },
        _ => {
            let (tf, s) = dedup(p.input(), seen);
            (rebuild(p, tf), s)
        },
    }
}

/// What the pass makes of the plans of a sequence, one after the other.
pub open spec fn dedup_all(s: Seq<PlanV>, seen: Set<Text>) -> (Seq<Transformed<PlanV>>, Set<Text>)
    decreases s,
{
    if s.len() == 0 {
        (Seq::empty(), seen)
    } else {
        let (tfs, s1) = dedup_all(s.drop_last(), seen);
        let (tf, s2) = dedup(s.last(), s1);
        (tfs.push(tf), s2)
    }
}

impl DuplicateScansRemoving {
    pub fn new() -> (r: Self)
        ensures
            r == DuplicateScansRemoving,
    {
        DuplicateScansRemoving
    }

    /// Runs the pass on a plan, given the node aliases met so far;
    /// `traversed` then holds those met after it.
    pub fn remove_duplicate_scans(
        &self,
        plan: &Arc<LogicalPlan>,
        traversed: &mut Vec<String>,
    ) -> (r: Transformed<Arc<LogicalPlan>>)
        ensures
            (tf_view(r), text_set(final(traversed)@)) == dedup(plan@, text_set(old(traversed)@)),
            r is No ==> r.plan() == *plan,
        decreases plan,
    {
        match &**plan {
            LogicalPlan::Empty => Transformed::No(plan.clone()),
            LogicalPlan::Scan(_) => Transformed::No(plan.clone()),
            LogicalPlan::GraphNode(node) => {
                insert_text(traversed, node.alias.clone());
                let child_tf = self.remove_duplicate_scans(&node.input, traversed);
                rebuild_single(plan, child_tf)
            },
            LogicalPlan::GraphRel(rel) => {
                let right_tf = self.remove_duplicate_scans(&rel.right, traversed);
                let center_tf = self.remove_duplicate_scans(&rel.center, traversed);
                let left_tf = if contains_text(traversed, &rel.left_connection) {
                    Transformed::Yes(Arc::new(LogicalPlan::Empty))
                } else {
                    self.remove_duplicate_scans(&rel.left, traversed)
                };
                rebuild_graph_rel(plan, left_tf, center_tf, right_tf)
            },
            LogicalPlan::Union(_) => {
                let n = union_len(plan);
                let mut tfs: Vec<Transformed<Arc<LogicalPlan>>> = Vec::new();
                let mut i: usize = 0;
                let ghost inputs = plan@->inputs;
                let ghost seen0 = text_set(traversed@);
                while i < n
                    invariant
                        i <= n,
                        plan@ is Union,
                        inputs == plan@->inputs,
                        n == inputs.len(),
                        (tfs_view(tfs@), text_set(traversed@)) == dedup_all(
                            inputs.take(i as int),
                            seen0,
                        ),
                    decreases n - i,
                {
                    let child = union_input(plan, i);
                    let tf = self.remove_duplicate_scans(&child, traversed);
                    proof {
                        assert(inputs.take(i + 1).drop_last() =~= inputs.take(i as int));
                        assert(tfs_view(tfs@.push(tf)) =~= tfs_view(tfs@).push(tf_view(tf)));
                    }
                    tfs.push(tf);
                    i += 1;
                }
                assert(inputs.take(n as int) =~= inputs);
                rebuild_union_node(plan, tfs)
            },
            _ => {
                let child = single_input(plan).unwrap();
                let child_tf = self.remove_duplicate_scans(&child, traversed);
                rebuild_single(plan, child_tf)
            },
        }
    }
}

impl AnalyzerPass for DuplicateScansRemoving {
    open spec fn analysis(&self, plan: PlanV, ctx: PlanCtxV, outcome: Analysis) -> bool {
        outcome == Ok::<(Transformed<PlanV>, PlanCtxV), AnalyzerErrorV>(
            (dedup(plan, Set::empty()).0, ctx),
        )
    }

    open spec fn analysis_with_graph_schema(
        &self,
        plan: PlanV,
        ctx: PlanCtxV,
        schema: GraphSchemaV,
        outcome: Analysis,
    ) -> bool {
        outcome == untouched(plan, ctx)
    }

    /// Runs the pass on a plan, starting with no alias met.
    fn analyze(&self, logical_plan: Arc<LogicalPlan>, plan_ctx: &mut PlanCtx) -> (r: Result<
        Transformed<Arc<LogicalPlan>>,
        AnalyzerError,
    >)
        ensures
            r matches Ok(tf) && tf_view(tf) == dedup(logical_plan@, Set::empty()).0 && (tf is No
                ==> tf.plan() == logical_plan),
            *final(plan_ctx) == *old(plan_ctx),
    {
        let mut traversed: Vec<String> = Vec::new();
        assert(text_set(traversed@) =~= Set::empty());
        Ok(self.remove_duplicate_scans(&logical_plan, &mut traversed))
    }

    /// The pass reads no catalog: its work is done by `analyze`, and this
    /// method leaves the plan and the context as they are.
    fn analyze_with_graph_schema(
        &self,
        logical_plan: Arc<LogicalPlan>,
        plan_ctx: &mut PlanCtx,
        graph_schema: &GraphSchema,
    ) -> (r: Result<Transformed<Arc<LogicalPlan>>, AnalyzerError>) {
        Ok(Transformed::No(logical_plan))
    }
}

} // verus!
