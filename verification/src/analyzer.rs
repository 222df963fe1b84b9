//! The analyzer passes, and the three groups in which planning runs
//! them.
use vstd::prelude::*;
use std::sync::Arc;
use crate::analyzer::analyzer_pass::AnalyzerPass;
use crate::errors::{AnalyzerError, AnalyzerErrorV};
use crate::graph_schema::{GraphSchema, GraphSchemaV};
use crate::logical_plan::{LogicalPlan, PlanV};
use crate::plan_ctx::{PlanCtx, PlanCtxV};
use crate::views::Text;

pub mod analyzer_pass;
pub mod duplicate_scans_removing;
pub mod filter_tagging;
pub mod graph_join_inference;
pub mod graph_traversal_planning;
pub mod group_by_building;
pub mod last_node_tagging;
pub mod pattern_lookup;
pub mod projection_tagging;
pub mod schema_inference;

verus! {

/// The outcome of a group of passes as contracts see it.
pub open spec fn group_view(r: Result<Arc<LogicalPlan>, AnalyzerError>, ctx_after: PlanCtxV) -> Result<
    (PlanV, PlanCtxV),
    AnalyzerErrorV,
> {
    match r {
        Ok(p) => Ok(((*p)@, ctx_after)),
        Err(e) => Err(e@),
    }
}

/// What the first group makes of a plan and a context: schema inference,
/// filter tagging, projection tagging, group-by construction.
pub open spec fn initial_analysis(p: PlanV, ctx: PlanCtxV, schema: GraphSchemaV) -> Result<
    (PlanV, PlanCtxV),
    AnalyzerErrorV,
> {
    match schema_inference::infer_schema(p, ctx, schema) {
        Err(e) => Err(e),
        Ok(c1) => match schema_inference::push_table_names(p, c1) {
            Err(e) => Err(e),
            Ok(tf1) => match filter_tagging::filter_tagging(tf1.plan(), c1) {
                Err(e) => Err(e),
                Ok((tf2, c2)) => match projection_tagging::projection_tagging(tf2.plan(), c2) {
                    Err(e) => Err(e),
                    Ok((tf3, c3)) => Ok(
                        (group_by_building::group_by_building(tf3.plan()).plan(), c3),
                    ),
                },
            },
        },
    }
}

/// What the second group makes of a plan and a context, given the fresh
/// aliases for traversal planning: schema inference, traversal planning,
/// the tables of the scans, duplicate-scan removal.
pub open spec fn intermediate_analysis(
    p: PlanV,
    ctx: PlanCtxV,
    schema: GraphSchemaV,
    ids: Seq<Text>,
) -> Result<(PlanV, PlanCtxV), AnalyzerErrorV> {
    match schema_inference::infer_schema(p, ctx, schema) {
        Err(e) => Err(e),
        Ok(c1) => match schema_inference::push_table_names(p, c1) {
            Err(e) => Err(e),
            Ok(tf1) => match graph_traversal_planning::plan_traversal(
                tf1.plan(),
                c1,
                schema,
                ids,
                0,
            ) {
                Err(e) => Err(e),
                Ok((tf2, c2)) => match schema_inference::push_table_names(tf2.plan(), c2) {
                    Err(e) => Err(e),
                    Ok(tf3) => Ok(
                        (duplicate_scans_removing::dedup(tf3.plan(), Set::empty()).0.plan(), c2),
                    ),
                },
            },
        },
    }
}

/// `true` when `r` and `ctx_after` are what the second group gives for
/// some fresh aliases `ids` of the generated form.
pub open spec fn is_intermediate_outcome(
    p: PlanV,
    ctx: PlanCtxV,
    schema: GraphSchemaV,
    ids: Seq<Text>,
    r: Result<Arc<LogicalPlan>, AnalyzerError>,
    ctx_after: PlanCtxV,
) -> bool {
    &&& forall|i: int|
        0 <= i < ids.len() ==> graph_traversal_planning::is_generated_alias(#[trigger] ids[i])
    &&& group_view(r, ctx_after) == intermediate_analysis(p, ctx, schema, ids)
}

/// What the last group makes of a plan: graph-join inference.
pub open spec fn final_analysis(p: PlanV, ctx: PlanCtxV, schema: GraphSchemaV) -> Result<
    (PlanV, PlanCtxV),
    AnalyzerErrorV,
> {
    match graph_join_inference::join_inference(p, ctx, schema) {
        Err(e) => Err(e),
        Ok(tf) => Ok((tf.plan(), ctx)),
    }
}

/// The first group of analyzer passes.
pub fn initial_analyzing(
    plan: Arc<LogicalPlan>,
    plan_ctx: &mut PlanCtx,
    current_graph_schema: &GraphSchema,
) -> (r: Result<Arc<LogicalPlan>, AnalyzerError>)
    ensures
        group_view(r, final(plan_ctx)@) == initial_analysis(
            plan@,
            old(plan_ctx)@,
            current_graph_schema@,
        ),
{
    let schema_inference = schema_inference::SchemaInference::new();
    let plan = match schema_inference.analyze_with_graph_schema(
        plan,
        plan_ctx,
        current_graph_schema,
    ) {
        Ok(tf) => tf.get_plan(),
        Err(e) => {
            return Err(e);
        },
    };
    let filter_tagging = filter_tagging::FilterTagging::new();
    let plan = match filter_tagging.analyze(plan, plan_ctx) {
        Ok(tf) => tf.get_plan(),
        Err(e) => {
            return Err(e);
        },
    };
    let projection_tagging = projection_tagging::ProjectionTagging::new();
    let plan = match projection_tagging.analyze(plan, plan_ctx) {
        Ok(tf) => tf.get_plan(),
        Err(e) => {
            return Err(e);
        },
    };
    let group_by_building = group_by_building::GroupByBuilding::new();
    match group_by_building.analyze(plan, plan_ctx) {
        Ok(tf) => Ok(tf.get_plan()),
        Err(e) => Err(e),
    }
}

/// The second group of analyzer passes. Traversal planning draws fresh
/// aliases at random: the outcome is what the group gives for some
/// aliases of the generated form.
pub fn intermediate_analyzing(
    plan: Arc<LogicalPlan>,
    plan_ctx: &mut PlanCtx,
    current_graph_schema: &GraphSchema,
) -> (r: Result<Arc<LogicalPlan>, AnalyzerError>)
    ensures
        exists|ids: Seq<Text>| #[trigger]
            is_intermediate_outcome(
                plan@,
                old(plan_ctx)@,
                current_graph_schema@,
                ids,
                r,
                final(plan_ctx)@,
            ),
{
    let ghost plan_before = plan@;
    let ghost ctx_before = plan_ctx@;
    let ghost schema = current_graph_schema@;
    let ghost none: Seq<Text> = Seq::empty();
    let schema_inference = schema_inference::SchemaInference::new();
    let plan1 = match schema_inference.analyze_with_graph_schema(
        plan,
        plan_ctx,
        current_graph_schema,
    ) {
        Ok(tf) => tf.get_plan(),
        Err(e) => {
            assert(is_intermediate_outcome(plan_before, ctx_before, schema, none, Err(e), plan_ctx@));
            return Err(e);
        },
    };
    let ghost c1 = plan_ctx@;
    let planning = graph_traversal_planning::GraphTRaversalPlanning::new();
    let planned = planning.analyze_with_graph_schema(plan1, plan_ctx, current_graph_schema);
    let ghost ids = choose|ids: Seq<Text>|
        graph_traversal_planning::is_outcome(plan1@, c1, schema, ids, planned, plan_ctx@);
    let plan2 = match planned {
        Ok(tf) => tf.get_plan(),
        Err(e) => {
            assert(is_intermediate_outcome(plan_before, ctx_before, schema, ids, Err(e), plan_ctx@));
            return Err(e);
        },
    };
    let plan3 = match schema_inference.push_inferred_table_names_to_scan(plan2, plan_ctx) {
        Ok(tf) => tf.get_plan(),
        Err(e) => {
            assert(is_intermediate_outcome(plan_before, ctx_before, schema, ids, Err(e), plan_ctx@));
            return Err(e);
        },
    };
    let duplicate_scans_removing = duplicate_scans_removing::DuplicateScansRemoving::new();
    let r = match duplicate_scans_removing.analyze(plan3, plan_ctx) {
        Ok(tf) => Ok(tf.get_plan()),
        Err(e) => Err(e),
    };
    assert(is_intermediate_outcome(plan_before, ctx_before, schema, ids, r, plan_ctx@));
    r
}

/// The last group of analyzer passes.
pub fn final_analyzing(
    plan: Arc<LogicalPlan>,
    plan_ctx: &mut PlanCtx,
    current_graph_schema: &GraphSchema,
) -> (r: Result<Arc<LogicalPlan>, AnalyzerError>)
    ensures
        group_view(r, final(plan_ctx)@) == final_analysis(
            plan@,
            old(plan_ctx)@,
            current_graph_schema@,
        ),
{
    let graph_join_inference = graph_join_inference::GraphJoinInference::new();
    match graph_join_inference.analyze_with_graph_schema(plan, plan_ctx, current_graph_schema) {
        Ok(tf) => Ok(tf.get_plan()),
        Err(e) => Err(e),
    }
}

} // verus!
