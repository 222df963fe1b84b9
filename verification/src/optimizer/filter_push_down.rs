//! Filter push-down: every scan whose alias has pushed-down predicates is
//! wrapped in a filter that holds their conjunction.
use vstd::prelude::*;
use std::sync::Arc;
use crate::errors::OptimizerError;
use crate::optimizer::optimizer_pass::OptimizerPass;
use crate::expr::{ExprV, OpAppV, Operator, OperatorApplication, PlanExpr, lemma_expr_view};
use crate::logical_plan::{
    rebuild, rebuild_graph_rel, rebuild_rel, rebuild_single, rebuild_union, rebuild_union_node,
    single_input, tf_view, tfs_view, union_input, union_len, Filter, LogicalPlan, PlanV,
};
use crate::plan_ctx::{PlanCtx, PlanCtxV};
use crate::transformed::Transformed;
use crate::views::seq_view;

verus! {

broadcast use lemma_expr_view;

pub struct FilterPushDown;

/// The conjunction of the predicates, nested to the left:
/// `((a AND b) AND c) ...`; nothing for no predicate.
pub open spec fn combined_predicate(filters: Seq<ExprV>) -> Option<ExprV>
    decreases filters.len(),
{
    if filters.len() == 0 {
        None
    } else if filters.len() == 1 {
        Some(filters[0])
    } else {
        Some(
            ExprV::OperatorApplication(
                OpAppV {
                    operator: Operator::And,
                    operands: seq![combined_predicate(filters.drop_last()).unwrap(), filters.last()],
                },
            ),
        )
    }
}

/// What the pass makes of a plan.
pub open spec fn filter_push_down(p: PlanV, ctx: PlanCtxV) -> Transformed<PlanV>
    decreases p,
{
    match p {
        PlanV::Empty => Transformed::No(p),
        PlanV::Scan { table_alias, .. } => match ctx.get(table_alias) {
            Some(t) => if t.filter_predicates.len() > 0 {
                Transformed::Yes(
                    PlanV::Filter {
                        input: Box::new(p),
                        predicate: combined_predicate(t.filter_predicates).unwrap(),
                    },
                )
            } else {
                Transformed::No(p)
            },
            None => Transformed::No(p),
        },
        PlanV::GraphRel { left, center, right, .. } => rebuild_rel(
            p,
            filter_push_down(*left, ctx),
            filter_push_down(*center, ctx),
            filter_push_down(*right, ctx),
        ),
        PlanV::Union { inputs } => rebuild_union(p, filter_push_down_all(inputs, ctx)),
        _ => rebuild(p, filter_push_down(p.input(), ctx)),
    }
}

/// What the pass makes of each plan of a sequence.
pub open spec fn filter_push_down_all(s: Seq<PlanV>, ctx: PlanCtxV) -> Seq<Transformed<PlanV>>
    decreases s,
{
    if s.len() == 0 {
        Seq::empty()
    } else {
        filter_push_down_all(s.drop_last(), ctx).push(filter_push_down(s.last(), ctx))
    }
}

impl FilterPushDown {
    pub fn new() -> (r: Self)
        ensures
            r == FilterPushDown,
    {
        FilterPushDown
    }

    /// The conjunction of the predicates, nested to the left.
    pub fn get_combined_predicate(&self, filter_items: Vec<PlanExpr>) -> (r: Option<PlanExpr>)
        ensures
            crate::views::opt_view(r) == combined_predicate(seq_view(filter_items@)),
    {
        combine(&filter_items)
    }

}

fn combine(filter_items: &Vec<PlanExpr>) -> (r: Option<PlanExpr>)
    ensures
        crate::views::opt_view(r) == combined_predicate(seq_view(filter_items@)),
{
    if filter_items.len() == 0 {
        return None;
    }
    let mut acc = filter_items[0].deep_clone();
    let mut i: usize = 1;
    assert(seq_view(filter_items@).take(1).len() == 1);
    while i < filter_items.len()
        invariant
            1 <= i <= filter_items.len(),
            Some(acc@) == combined_predicate(seq_view(filter_items@).take(i as int)),
        decreases filter_items.len() - i,
    {
        let next = filter_items[i].deep_clone();
        let ghost prev = acc@;
        let operands = vec![acc, next];
        acc = PlanExpr::OperatorApplicationExp(
            OperatorApplication { operator: Operator::And, operands },
        );
        proof {
            let t1 = seq_view(filter_items@).take(i + 1);
            assert(t1.drop_last() =~= seq_view(filter_items@).take(i as int));
            assert(seq_view(operands@) =~= seq![prev, t1.last()]);
            assert(t1.len() == i + 1);
            assert(combined_predicate(t1.drop_last()) == Some(prev));
            assert(combined_predicate(t1) == Some(
                ExprV::OperatorApplication(
                    OpAppV { operator: Operator::And, operands: seq![prev, t1.last()] },
                ),
            ));
            assert(acc@ == ExprV::OperatorApplication(
                OpAppV { operator: Operator::And, operands: seq_view(operands@) },
            ));
        }
        i += 1;
    }
    assert(seq_view(filter_items@).take(filter_items.len() as int) =~= seq_view(filter_items@));
    Some(acc)
}

impl OptimizerPass for FilterPushDown {
    open spec fn optimized(&self, plan: PlanV, ctx: PlanCtxV) -> Transformed<PlanV> {
        filter_push_down(plan, ctx)
    }

    /// Wraps every scan that has pushed-down predicates. A plan that holds
    /// no such scan comes back as it is.
    fn optimize(&self, logical_plan: Arc<LogicalPlan>, plan_ctx: &mut PlanCtx) -> (r: Result<
        Transformed<Arc<LogicalPlan>>,
        OptimizerError,
    >) {
        Ok(push(&logical_plan, plan_ctx))
    }
}

fn push(plan: &Arc<LogicalPlan>, ctx: &PlanCtx) -> (r: Transformed<Arc<LogicalPlan>>)
    ensures
        tf_view(r) == filter_push_down(plan@, ctx@),
        r is No ==> r.plan() == *plan,
    decreases plan,
{
    match &**plan {
        LogicalPlan::Empty => Transformed::No(plan.clone()),
        LogicalPlan::Scan(scan) => {
            match ctx.get_table_ctx_opt(scan.table_alias.as_str()) {
                Some(table_ctx) => {
                    if table_ctx.get_filters().len() > 0 {
                        let combined = combine(table_ctx.get_filters());
                        Transformed::Yes(
                            Arc::new(
                                LogicalPlan::Filter(
                                    Filter { input: plan.clone(), predicate: combined.unwrap() },
                                ),
                            ),
                        )
                    } else {
                        Transformed::No(plan.clone())
                    }
                },
                None => Transformed::No(plan.clone()),
            }
        },
        LogicalPlan::GraphRel(rel) => {
            let left_tf = push(&rel.left, ctx);
            let center_tf = push(&rel.center, ctx);
            let right_tf = push(&rel.right, ctx);
            rebuild_graph_rel(plan, left_tf, center_tf, right_tf)
        },
        LogicalPlan::Union(_) => {
            let n = union_len(plan);
            let mut tfs: Vec<Transformed<Arc<LogicalPlan>>> = Vec::new();
            let mut i: usize = 0;
            let ghost inputs = plan@->inputs;
            while i < n
                invariant
                    i <= n,
                    plan@ is Union,
                    inputs == plan@->inputs,
                    n == inputs.len(),
                    tfs_view(tfs@) == filter_push_down_all(inputs.take(i as int), ctx@),
                decreases n - i,
            {
                let child = union_input(plan, i);
                let tf = push(&child, ctx);
                proof {
                    assert(inputs.take(i + 1).drop_last() =~= inputs.take(i as int));
                    assert(tfs_view(tfs@.push(tf)) =~= tfs_view(tfs@).push(tf_view(tf)));
                }
                tfs.push(tf);
                i += 1;
            }
            assert(inputs.take(n as int) =~= inputs);
            rebuild_union_node(plan, tfs)
        },
        _ => {
            let child = single_input(plan).unwrap();
            let tf = push(&child, ctx);
            rebuild_single(plan, tf)
        },
    }
}

} // verus!
