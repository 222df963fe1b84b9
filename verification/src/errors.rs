//! The errors that planning can raise. Each names what was missing and,
//! for analyzer errors, the pass that raised it.
use vstd::prelude::*;

verus! {

/// A label that the catalog does not hold.
#[derive(Debug, Clone, PartialEq)]
pub enum GraphSchemaError {
    NoRelationSchemaFound { rel_label: String },
    NoNodeSchemaFound { node_label: String },
    NoRelationIndexSchemaFound { rel_label: String },
}

/// An alias that the plan context does not hold, or holds without a label.
#[derive(Debug, Clone, PartialEq)]
pub enum PlanCtxError {
    MissingTableCtx { alias: String },
    MissingNodeTableCtx { alias: String },
    MissingRelTableCtx { alias: String },
    MissingLabel { alias: String },
}

/// The analyzer passes that can fail.
#[derive(Debug, Clone, Copy, PartialEq, Eq, Structural)]
pub enum Pass {
    FilterTagging,
    GraphJoinInference,
    GraphTraversalPlanning,
    ProjectionTagging,
    SchemaInference,
}

impl Pass {
    /// The name of the pass as it appears in messages.
    pub open spec fn name(self) -> Seq<char> {
        match self {
            Pass::FilterTagging => "FilterTagging"@,
            Pass::GraphJoinInference => "GraphJoinInference"@,
            Pass::GraphTraversalPlanning => "GraphTraversalPlanning"@,
            Pass::ProjectionTagging => "ProjectionTagging"@,
            Pass::SchemaInference => "SchemaInference"@,
        }
    }

    pub fn as_str(self) -> (s: &'static str)
        ensures
            s@ == self.name(),
    {
        match self {
            Pass::FilterTagging => "FilterTagging",
            Pass::GraphJoinInference => "GraphJoinInference",
            Pass::GraphTraversalPlanning => "GraphTraversalPlanning",
            Pass::ProjectionTagging => "ProjectionTagging",
            Pass::SchemaInference => "SchemaInference",
        }
    }
}

/// Failures of the analyzer passes.
#[derive(Debug, Clone, PartialEq)]
pub enum AnalyzerError {
    /// No relationship in the catalog fits the pattern of the
    /// relationship `alias`.
    MissingRelationLabel { pass: Pass, alias: String },
    /// The catalog holds no relationship of the label.
    NoRelationSchemaFound { pass: Pass, rel_label: String },
    /// The catalog holds no node of the label.
    NoNodeSchemaFound { pass: Pass, node_label: String },
    /// The labels of the pattern of these three aliases cannot be told
    /// from what the query says.
    NotEnoughLabels { pass: Pass, left_alias: String, rel_alias: String, right_alias: String },
    /// An alias that no `MATCH` pattern introduced.
    OrphanAlias { pass: Pass, alias: String },
    PlanCtx { pass: Pass, source: PlanCtxError },
    GraphSchema { pass: Pass, source: GraphSchemaError },
}

/// Failures of the optimizer passes.
#[derive(Debug, Clone, Copy, PartialEq, Eq, Structural)]
pub enum OptimizerError {
    CombineFilterPredicate,
    MissingGraphRelInRotatePlan,
}

/// Failures while building the logical plan.
#[derive(Debug, Clone, Copy, PartialEq, Eq, Structural)]
pub enum LogicalPlanError {
    /// A comma-separated pattern shares no alias with the patterns before it.
    DisconnectedPatternFound,
    /// A standalone node without a name.
    EmptyNode,
}

/// Failures while reducing a logical plan to a render plan.
#[derive(Debug, Clone, Copy, PartialEq, Eq, Structural)]
pub enum RenderBuildError {
    /// A select list was asked of a node that is no projection.
    SelectItemsBuilder,
    /// The plan has no scan to read from.
    MissingFromTable,
    /// The plan returns nothing.
    MissingSelectItems,
    /// The CTE that the outer query reads belongs to no graph node, so
    /// that no alias tells whose it is.
    MalformedCTEName,
}

/// Every error that planning a query can end in.
#[derive(Debug, Clone, PartialEq)]
pub enum QueryPlannerError {
    LogicalPlan(LogicalPlanError),
    Optimizer(OptimizerError),
    Analyzer(AnalyzerError),
    Render(RenderBuildError),
    UnsupportedQueryType,
}

pub ghost enum GraphSchemaErrorV {
    NoRelationSchemaFound { rel_label: Seq<char> },
    NoNodeSchemaFound { node_label: Seq<char> },
    NoRelationIndexSchemaFound { rel_label: Seq<char> },
}

impl View for GraphSchemaError {
    type V = GraphSchemaErrorV;

    open spec fn view(&self) -> GraphSchemaErrorV {
        match self {
            GraphSchemaError::NoRelationSchemaFound { rel_label } => GraphSchemaErrorV::NoRelationSchemaFound {
                rel_label: rel_label@,
            },
            GraphSchemaError::NoNodeSchemaFound { node_label } => GraphSchemaErrorV::NoNodeSchemaFound {
                node_label: node_label@,
            },
            GraphSchemaError::NoRelationIndexSchemaFound { rel_label } => GraphSchemaErrorV::NoRelationIndexSchemaFound {
                rel_label: rel_label@,
            },
        }
    }
}

pub ghost enum PlanCtxErrorV {
    MissingTableCtx { alias: Seq<char> },
    MissingNodeTableCtx { alias: Seq<char> },
    MissingRelTableCtx { alias: Seq<char> },
    MissingLabel { alias: Seq<char> },
}

impl View for PlanCtxError {
    type V = PlanCtxErrorV;

    open spec fn view(&self) -> PlanCtxErrorV {
        match self {
            PlanCtxError::MissingTableCtx { alias } => PlanCtxErrorV::MissingTableCtx {
                alias: alias@,
            },
            PlanCtxError::MissingNodeTableCtx { alias } => PlanCtxErrorV::MissingNodeTableCtx {
                alias: alias@,
            },
            PlanCtxError::MissingRelTableCtx { alias } => PlanCtxErrorV::MissingRelTableCtx {
                alias: alias@,
            },
            PlanCtxError::MissingLabel { alias } => PlanCtxErrorV::MissingLabel { alias: alias@ },
        }
    }
}

pub ghost enum AnalyzerErrorV {
    MissingRelationLabel { pass: Pass, alias: Seq<char> },
    NoRelationSchemaFound { pass: Pass, rel_label: Seq<char> },
    NoNodeSchemaFound { pass: Pass, node_label: Seq<char> },
    NotEnoughLabels { pass: Pass, left_alias: Seq<char>, rel_alias: Seq<char>, right_alias: Seq<char> },
    OrphanAlias { pass: Pass, alias: Seq<char> },
    PlanCtx { pass: Pass, source: PlanCtxErrorV },
    GraphSchema { pass: Pass, source: GraphSchemaErrorV },
}

impl View for AnalyzerError {
    type V = AnalyzerErrorV;

    open spec fn view(&self) -> AnalyzerErrorV {
        match self {
            AnalyzerError::MissingRelationLabel { pass, alias } => AnalyzerErrorV::MissingRelationLabel {
                pass: *pass,
                alias: alias@,
            },
            AnalyzerError::NoRelationSchemaFound { pass, rel_label } => AnalyzerErrorV::NoRelationSchemaFound {
                pass: *pass,
                rel_label: rel_label@,
            },
            AnalyzerError::NoNodeSchemaFound { pass, node_label } => AnalyzerErrorV::NoNodeSchemaFound {
                pass: *pass,
                node_label: node_label@,
            },
            AnalyzerError::NotEnoughLabels { pass, left_alias, rel_alias, right_alias } => AnalyzerErrorV::NotEnoughLabels {
                pass: *pass,
                left_alias: left_alias@,
                rel_alias: rel_alias@,
                right_alias: right_alias@,
            },
            AnalyzerError::OrphanAlias { pass, alias } => AnalyzerErrorV::OrphanAlias {
                pass: *pass,
                alias: alias@,
            },
            AnalyzerError::PlanCtx { pass, source } => AnalyzerErrorV::PlanCtx {
                pass: *pass,
                source: source@,
            },
            AnalyzerError::GraphSchema { pass, source } => AnalyzerErrorV::GraphSchema {
                pass: *pass,
                source: source@,
            },
        }
    }
}

pub ghost enum QueryPlannerErrorV {
    LogicalPlan(LogicalPlanError),
    Optimizer(OptimizerError),
    Analyzer(AnalyzerErrorV),
    Render(RenderBuildError),
    UnsupportedQueryType,
}

impl View for QueryPlannerError {
    type V = QueryPlannerErrorV;

    open spec fn view(&self) -> QueryPlannerErrorV {
        match self {
            QueryPlannerError::LogicalPlan(e) => QueryPlannerErrorV::LogicalPlan(*e),
            QueryPlannerError::Optimizer(e) => QueryPlannerErrorV::Optimizer(*e),
            QueryPlannerError::Analyzer(e) => QueryPlannerErrorV::Analyzer(e@),
            QueryPlannerError::Render(e) => QueryPlannerErrorV::Render(*e),
            QueryPlannerError::UnsupportedQueryType => QueryPlannerErrorV::UnsupportedQueryType,
        }
    }
}

/// The outcome of a fallible step as contracts see it.
pub open spec fn res_view<T: View, E: View>(r: Result<T, E>) -> Result<T::V, E::V> {
    match r {
        Ok(t) => Ok(t@),
        Err(e) => Err(e@),
    }
}

} // verus!
