//! The planning of a read query: build the logical plan, run the
//! analyzer and optimizer groups in their fixed order, reduce to a render
//! plan, emit SQL.
use vstd::prelude::*;
use std::sync::Arc;
use crate::analyzer::graph_traversal_planning::is_generated_alias;
use crate::analyzer::{
    final_analysis, final_analyzing, initial_analysis, initial_analyzing, intermediate_analysis,
    intermediate_analyzing, is_intermediate_outcome,
};
use crate::ast::OpenCypherQueryAst;
use crate::errors::{QueryPlannerError, QueryPlannerErrorV};
use crate::graph_schema::{GraphSchema, GraphSchemaV};
use crate::logical_plan::{LogicalPlan, PlanV};
use crate::optimizer::anchor_node_selection::anchor_node_selection;
use crate::optimizer::{final_optimization, final_optimized, initial_optimization};
use crate::plan_builder::{build_logical_plan, built_plan, is_built};
use crate::render_plan::plan_builder::render_plan;
use crate::render_plan::to_sql::plan_sql;
use crate::views::Text;

verus! {

/// The kinds of query.
#[derive(Debug, Clone, Copy, PartialEq, Eq, Structural)]
pub enum QueryType {
    Ddl,
    Delete,
    Update,
    Read,
}

/// The kind of a query: a table definition, else a deletion, else an
/// update, else a read.
pub open spec fn query_type(ast: OpenCypherQueryAst) -> QueryType {
    if ast.create_node_table_clause is Some || ast.create_rel_table_clause is Some {
        QueryType::Ddl
    } else if ast.delete_clause is Some {
        QueryType::Delete
    } else if ast.set_clause is Some || ast.remove_clause is Some {
        QueryType::Update
    } else {
        QueryType::Read
    }
}

pub fn get_query_type(query_ast: &OpenCypherQueryAst) -> (r: QueryType)
    ensures
        r == query_type(*query_ast),
{
    if query_ast.create_node_table_clause.is_some() || query_ast.create_rel_table_clause.is_some() {
        QueryType::Ddl
    } else if query_ast.delete_clause.is_some() {
        QueryType::Delete
    } else if query_ast.set_clause.is_some() || query_ast.remove_clause.is_some() {
        QueryType::Update
    } else {
        QueryType::Read
    }
}

/// The final logical plan of a read query, given the fresh aliases that
/// the builder (`built_ids`) and traversal planning (`planning_ids`) take.
/// The passes run in their fixed order, and the first error ends planning.
pub open spec fn planned(
    ast: OpenCypherQueryAst,
    schema: GraphSchemaV,
    built_ids: Seq<Text>,
    planning_ids: Seq<Text>,
) -> Result<PlanV, QueryPlannerErrorV> {
    if query_type(ast) != QueryType::Read {
        Err(QueryPlannerErrorV::UnsupportedQueryType)
    } else {
        match built_plan(ast, built_ids) {
            Err(e) => Err(QueryPlannerErrorV::LogicalPlan(e)),
            Ok((built, built_ctx)) => match initial_analysis(built, built_ctx, schema) {
                Err(e) => Err(QueryPlannerErrorV::Analyzer(e)),
                Ok((tagged, tagged_ctx)) => match intermediate_analysis(
                    anchor_node_selection(tagged, tagged_ctx).plan(),
                    tagged_ctx,
                    schema,
                    planning_ids,
                ) {
                    Err(e) => Err(QueryPlannerErrorV::Analyzer(e)),
                    Ok((traversed, traversed_ctx)) => match final_analysis(final_optimized(traversed, traversed_ctx), traversed_ctx, schema) {
                        Err(e) => Err(QueryPlannerErrorV::Analyzer(e)),
                        Ok((joined, _)) => Ok(joined),
                    },
                },
            },
        }
    }
}

/// The outcome of planning as contracts see it.
pub open spec fn plan_view(r: Result<Arc<LogicalPlan>, QueryPlannerError>) -> Result<
    PlanV,
    QueryPlannerErrorV,
> {
    match r {
        Ok(p) => Ok((*p)@),
        Err(e) => Err(e@),
    }
}

/// `true` when `r` is what planning gives for the fresh aliases.
pub open spec fn is_planned(
    ast: OpenCypherQueryAst,
    schema: GraphSchemaV,
    built_ids: Seq<Text>,
    planning_ids: Seq<Text>,
    r: Result<Arc<LogicalPlan>, QueryPlannerError>,
) -> bool {
    &&& forall|i: int| 0 <= i < built_ids.len() ==> is_generated_alias(#[trigger] built_ids[i])
    &&& forall|i: int|
        0 <= i < planning_ids.len() ==> is_generated_alias(#[trigger] planning_ids[i])
    &&& plan_view(r) == planned(ast, schema, built_ids, planning_ids)
}

/// Plans a read query down to its final logical plan. Fresh aliases are
/// drawn at random: the outcome is what planning gives for some aliases
/// of the generated form.
pub fn evaluate_read_query(query_ast: OpenCypherQueryAst, current_graph_schema: &GraphSchema) -> (r:
    Result<Arc<LogicalPlan>, QueryPlannerError>)
    ensures
        exists|built_ids: Seq<Text>, planning_ids: Seq<Text>| #[trigger]
            is_planned(query_ast, current_graph_schema@, built_ids, planning_ids, r),
{
    let ghost schema = current_graph_schema@;
    let ghost none: Seq<Text> = Seq::empty();
    match get_query_type(&query_ast) {
        QueryType::Read => {},
        _ => {
            let r = Err(QueryPlannerError::UnsupportedQueryType);
            assert(is_planned(query_ast, schema, none, none, r));
            return r;
        },
    }
    let built = build_logical_plan(&query_ast);
    let ghost ids1 = choose|ids: Seq<Text>| is_built(query_ast, ids, built);
    let (plan0, mut plan_ctx) = match built {
        Ok(x) => x,
        Err(e) => {
            let r = Err(QueryPlannerError::LogicalPlan(e));
            assert(is_planned(query_ast, schema, ids1, none, r));
            return r;
        },
    };
    let plan1 = match initial_analyzing(plan0, &mut plan_ctx, current_graph_schema) {
        Ok(p) => p,
        Err(e) => {
            let r = Err(QueryPlannerError::Analyzer(e));
            assert(is_planned(query_ast, schema, ids1, none, r));
            return r;
        },
    };
    let plan2 = match initial_optimization(plan1, &mut plan_ctx) {
        Ok(p) => p,
        Err(e) => {
            return Err(QueryPlannerError::Optimizer(e));
        },
    };
    let ghost c1 = plan_ctx@;
    let analyzed = intermediate_analyzing(plan2, &mut plan_ctx, current_graph_schema);
    let ghost ids2 = choose|ids: Seq<Text>|
        is_intermediate_outcome(plan2@, c1, schema, ids, analyzed, plan_ctx@);
    let plan3 = match analyzed {
        Ok(p) => p,
        Err(e) => {
            let r = Err(QueryPlannerError::Analyzer(e));
            assert(is_planned(query_ast, schema, ids1, ids2, r));
            return r;
        },
    };
    let plan4 = match final_optimization(plan3, &mut plan_ctx) {
        Ok(p) => p,
        Err(e) => {
            return Err(QueryPlannerError::Optimizer(e));
        },
    };
    let r = match final_analyzing(plan4, &mut plan_ctx, current_graph_schema) {
        Ok(p) => Ok(p),
        Err(e) => Err(QueryPlannerError::Analyzer(e)),
    };
    assert(is_planned(query_ast, schema, ids1, ids2, r));
    r
}

/// `true` when `r` is the SQL text of the query for the fresh aliases.
pub open spec fn is_sql_of(
    ast: OpenCypherQueryAst,
    schema: GraphSchemaV,
    built_ids: Seq<Text>,
    planning_ids: Seq<Text>,
    r: Result<String, QueryPlannerError>,
) -> bool {
    &&& forall|i: int| 0 <= i < built_ids.len() ==> is_generated_alias(#[trigger] built_ids[i])
    &&& forall|i: int|
        0 <= i < planning_ids.len() ==> is_generated_alias(#[trigger] planning_ids[i])
    &&& match planned(ast, schema, built_ids, planning_ids) {
        Err(e) => r matches Err(err) && err@ == e,
        Ok(p) => match render_plan(p) {
            Err(e) => r matches Err(err) && err@ == QueryPlannerErrorV::Render(e),
            Ok(rp) => r matches Ok(sql) && sql@ == plan_sql(rp),
        },
    }
}

/// Plans a read query and emits its SQL text.
pub fn generate_query_sql(query_ast: OpenCypherQueryAst, current_graph_schema: &GraphSchema) -> (r:
    Result<String, QueryPlannerError>)
    ensures
        exists|built_ids: Seq<Text>, planning_ids: Seq<Text>| #[trigger]
            is_sql_of(query_ast, current_graph_schema@, built_ids, planning_ids, r),
{
    let planned_plan = evaluate_read_query(query_ast, current_graph_schema);
    let ghost ids = choose|ids: (Seq<Text>, Seq<Text>)|
        is_planned(query_ast, current_graph_schema@, ids.0, ids.1, planned_plan);
    proof {
        let w = choose|built_ids: Seq<Text>, planning_ids: Seq<Text>|
            is_planned(query_ast, current_graph_schema@, built_ids, planning_ids, planned_plan);
        assert(is_planned(query_ast, current_graph_schema@, (w.0, w.1).0, (w.0, w.1).1, planned_plan));
    }
    let r = match planned_plan {
        Err(e) => Err(e),
        Ok(plan) => match plan.to_render_plan() {
            Err(e) => Err(QueryPlannerError::Render(e)),
            Ok(render) => Ok(render.to_sql()),
        },
    };
    assert(is_sql_of(query_ast, current_graph_schema@, ids.0, ids.1, r));
    r
}

} // verus!
