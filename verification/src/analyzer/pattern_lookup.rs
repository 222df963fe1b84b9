//! What a pass looks up for the three aliases of a pattern
//! `(left)-[rel]-(right)`, and which of the things that are missing it
//! reports.
use vstd::prelude::*;
use crate::analyzer::graph_join_inference::{catalog_label_of, catalog_rel_label};
use crate::errors::{
    AnalyzerError, AnalyzerErrorV, GraphSchemaErrorV, Pass, PlanCtxError, PlanCtxErrorV,
};
use crate::graph_schema::{GraphSchema, GraphSchemaV};
use crate::plan_ctx::{PlanCtx, PlanCtxV};
use crate::views::Text;

verus! {

/// The label under which the catalog holds the schema of a relationship:
/// the label of the alias, or, where `strip` is set, what
/// `catalog_rel_label` makes of it.
pub open spec fn catalog_label(schema: GraphSchemaV, label: Text, strip: bool) -> Text {
    if strip {
        catalog_rel_label(schema, label)
    } else {
        label
    }
}

/// The first thing that is missing for a pattern, if any. The contexts of
/// the three aliases are looked up first, then their labels, then their
/// schemas; each time the left endpoint comes first, then the
/// relationship, then the right endpoint.
pub open spec fn pattern_miss(
    pass: Pass,
    ctx: PlanCtxV,
    schema: GraphSchemaV,
    left: Text,
    rel: Text,
    right: Text,
    strip: bool,
) -> Option<AnalyzerErrorV> {
    match (ctx.get(left), ctx.get(rel), ctx.get(right)) {
        (None, _, _) => Some(
            AnalyzerErrorV::PlanCtx {
                pass,
                source: PlanCtxErrorV::MissingNodeTableCtx { alias: left },
            },
        ),
        (Some(_), None, _) => Some(
            AnalyzerErrorV::PlanCtx { pass, source: PlanCtxErrorV::MissingRelTableCtx { alias: rel } },
        ),
        (Some(_), Some(_), None) => Some(
            AnalyzerErrorV::PlanCtx {
                pass,
                source: PlanCtxErrorV::MissingNodeTableCtx { alias: right },
            },
        ),
        (Some(l), Some(r), Some(t)) => match (l.label, r.label, t.label) {
            (None, _, _) => Some(
                AnalyzerErrorV::PlanCtx { pass, source: PlanCtxErrorV::MissingLabel { alias: left } },
            ),
            (Some(_), None, _) => Some(
                AnalyzerErrorV::PlanCtx { pass, source: PlanCtxErrorV::MissingLabel { alias: rel } },
            ),
            (Some(_), Some(_), None) => Some(
                AnalyzerErrorV::PlanCtx {
                    pass,
                    source: PlanCtxErrorV::MissingLabel { alias: right },
                },
            ),
            (Some(left_label), Some(rel_label), Some(right_label)) => {
                if schema.node(left_label) is None {
                    Some(
                        AnalyzerErrorV::GraphSchema {
                            pass,
                            source: GraphSchemaErrorV::NoNodeSchemaFound { node_label: left_label },
                        },
                    )
                } else if schema.relationship(catalog_label(schema, rel_label, strip)) is None {
                    Some(
                        AnalyzerErrorV::GraphSchema {
                            pass,
                            source: GraphSchemaErrorV::NoRelationSchemaFound {
                                rel_label: catalog_label(schema, rel_label, strip),
                            },
                        },
                    )
                } else if schema.node(right_label) is None {
                    Some(
                        AnalyzerErrorV::GraphSchema {
                            pass,
                            source: GraphSchemaErrorV::NoNodeSchemaFound {
                                node_label: right_label,
                            },
                        },
                    )
                } else {
                    None
                }
            },
        },
    }
}

/// Looks up what a pass needs of a pattern and reports the first thing
/// that is missing.
pub fn check_pattern(
    pass: Pass,
    plan_ctx: &PlanCtx,
    graph_schema: &GraphSchema,
    left: &String,
    rel: &String,
    right: &String,
    strip: bool,
) -> (r: Result<(), AnalyzerError>)
    ensures
        match r {
            Ok(_) => pattern_miss(pass, plan_ctx@, graph_schema@, left@, rel@, right@, strip)
                is None,
            Err(e) => pattern_miss(pass, plan_ctx@, graph_schema@, left@, rel@, right@, strip)
                == Some(e@),
        },
{
    let left_ctx = match plan_ctx.get_node_table_ctx(left.as_str()) {
        Ok(t) => t,
        Err(e) => {
            return Err(AnalyzerError::PlanCtx { pass, source: e });
        },
    };
    let rel_ctx = match plan_ctx.get_rel_table_ctx(rel.as_str()) {
        Ok(t) => t,
        Err(e) => {
            return Err(AnalyzerError::PlanCtx { pass, source: e });
        },
    };
    let right_ctx = match plan_ctx.get_node_table_ctx(right.as_str()) {
        Ok(t) => t,
        Err(e) => {
            return Err(AnalyzerError::PlanCtx { pass, source: e });
        },
    };
    let left_label = match left_ctx.get_label_opt() {
        Some(l) => l,
        None => {
            return Err(
                AnalyzerError::PlanCtx {
                    pass,
                    source: PlanCtxError::MissingLabel { alias: left.clone() },
                },
            );
        },
    };
    let rel_label = match rel_ctx.get_label_opt() {
        Some(l) => l,
        None => {
            return Err(
                AnalyzerError::PlanCtx {
                    pass,
                    source: PlanCtxError::MissingLabel { alias: rel.clone() },
                },
            );
        },
    };
    let right_label = match right_ctx.get_label_opt() {
        Some(l) => l,
        None => {
            return Err(
                AnalyzerError::PlanCtx {
                    pass,
                    source: PlanCtxError::MissingLabel { alias: right.clone() },
                },
            );
        },
    };
    match graph_schema.get_node_schema(left_label.as_str()) {
        Ok(_) => {},
        Err(e) => {
            return Err(AnalyzerError::GraphSchema { pass, source: e });
        },
    }
    let key = if strip {
        catalog_label_of(graph_schema, &rel_label)
    } else {
        rel_label
    };
    match graph_schema.get_rel_schema(key.as_str()) {
        Ok(_) => {},
        Err(e) => {
            return Err(AnalyzerError::GraphSchema { pass, source: e });
        },
    }
    match graph_schema.get_node_schema(right_label.as_str()) {
        Ok(_) => {},
        Err(e) => {
            return Err(AnalyzerError::GraphSchema { pass, source: e });
        },
    }
    Ok(())
}

} // verus!
