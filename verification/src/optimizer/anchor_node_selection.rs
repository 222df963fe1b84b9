//! Anchor node selection: the alias with the most pushed-down predicates
//! becomes the start of the traversal, and the chain of relationships is
//! rotated around it.
use vstd::prelude::*;
use std::sync::Arc;
use crate::assoc::entries_view;
use crate::errors::OptimizerError;
use crate::optimizer::optimizer_pass::OptimizerPass;
use crate::logical_plan::{
    rebuild, rebuild_graph_rel, rebuild_rel, rebuild_single, rebuild_union, rebuild_union_node,
    single_input, tf_view, tfs_view, union_input, union_len, GraphNode, GraphRel, LogicalPlan,
    PlanV,
};
use crate::plan_ctx::{PlanCtx, PlanCtxV, TableCtxV};
use crate::transformed::Transformed;
use crate::views::{clone_opt_string, opt_view, Text};

verus! {

pub struct AnchorNodeSelection;

/// The position of the entry with the most predicates, the first of them
/// where several have as many; `None` for no entry.
pub open spec fn densest(entries: Seq<(Text, TableCtxV)>) -> Option<int>
    decreases entries.len(),
{
    if entries.len() == 0 {
        None
    } else {
        match densest(entries.drop_last()) {
            None => Some(entries.len() - 1),
            Some(b) => if entries.last().1.filter_predicates.len()
                > entries[b].1.filter_predicates.len() {
                Some(entries.len() - 1)
            } else {
                Some(b)
            },
        }
    }
}

/// The anchor: the alias with the most predicates, if it has any.
pub open spec fn anchor_alias(ctx: PlanCtxV) -> Option<Text> {
    match densest(ctx.entries) {
        None => None,
        Some(b) => if 0 <= b < ctx.entries.len() && ctx.entries[b].1.filter_predicates.len() > 0 {
            Some(ctx.entries[b].0)
        } else {
            None
        },
    }
}

/// The relationship that starts the rotated chain: its old left endpoint
/// becomes the right child, and direction and connections are swapped.
pub open spec fn node_anchor_start(p: PlanV) -> PlanV
    recommends
        p is GraphRel,
{
    match p {
        PlanV::GraphRel {
            left,
            center,
            right,
            alias,
            direction,
            left_connection,
            right_connection,
            is_rel_anchor,
        } => PlanV::GraphRel {
            left: Box::new(PlanV::Empty),
            center,
            right: left,
            alias,
            direction: direction.reversed(),
            left_connection: right_connection,
            right_connection: left_connection,
            is_rel_anchor: false,
        },
        other => other,
    }
}

/// The relationship that starts the rotated chain when the relationship
/// itself is the anchor: its scan becomes the right child.
pub open spec fn rel_anchor_start(p: PlanV) -> PlanV
    recommends
        p is GraphRel,
{
    match p {
        PlanV::GraphRel {
            left,
            center,
            right,
            alias,
            direction,
            left_connection,
            right_connection,
            is_rel_anchor,
        } => PlanV::GraphRel {
            left: Box::new(PlanV::Empty),
            center: left,
            right: center,
            alias,
            direction: direction.reversed(),
            left_connection: right_connection,
            right_connection: left_connection,
            is_rel_anchor: true,
        },
        other => other,
    }
}

/// The chain that re-parenting `remaining` above `prev` gives. A node
/// becomes the left endpoint of `prev`. A relationship goes on top; the
/// child of it that `prev` connects to becomes the left endpoint of
/// `prev`, the other is taken up next. Where that was its left child the
/// relationship is flipped: its direction is reversed and its connections
/// change places, so that it links the same nodes the same way.
pub open spec fn rotate(prev: PlanV, remaining: PlanV) -> PlanV
    decreases remaining,
{
    match prev {
        PlanV::GraphRel {
            left: p_left,
            center: p_center,
            right: p_right,
            alias: p_alias,
            direction: p_direction,
            left_connection: p_lc,
            right_connection: p_rc,
            is_rel_anchor: p_anchor,
        } => match remaining {
            PlanV::GraphNode { alias, .. } => PlanV::GraphRel {
                left: Box::new(remaining),
                center: p_center,
                right: p_right,
                alias: p_alias,
                direction: p_direction,
                left_connection: alias,
                right_connection: p_rc,
                is_rel_anchor: p_anchor,
            },
            PlanV::GraphRel {
                left,
                center,
                right,
                alias,
                direction,
                left_connection,
                right_connection,
                is_rel_anchor,
            } => {
                let attached = if p_lc == left_connection {
                    left
                } else {
                    right
                };
                let next = if p_lc == left_connection {
                    right
                } else {
                    left
                };
                rotate(
                    PlanV::GraphRel {
                        left: Box::new(PlanV::Empty),
                        center,
                        right: Box::new(
                            PlanV::GraphRel {
                                left: attached,
                                center: p_center,
                                right: p_right,
                                alias: p_alias,
                                direction: p_direction,
                                left_connection: p_lc,
                                right_connection: p_rc,
                                is_rel_anchor: p_anchor,
                            },
                        ),
                        alias,
                        direction: if p_lc == left_connection {
                            direction.reversed()
                        } else {
                            direction
                        },
                        left_connection: if p_lc == left_connection {
                            right_connection
                        } else {
                            left_connection
                        },
                        right_connection: if p_lc == left_connection {
                            left_connection
                        } else {
                            right_connection
                        },
                        is_rel_anchor: false,
                    },
                    *next,
                )
            },
            _ => prev,
        },
        _ => prev,
    }
}

/// What becomes of a plan whose first relationship does not end at the
/// anchor.
///
/// - A relationship whose left connection is the anchor is rotated.
/// - A relationship that is itself the anchor is promoted and rotated.
/// - Any other relationship is searched child by child.
pub open spec fn rotation(p: PlanV, anchor: Text) -> Transformed<PlanV>
    decreases p,
{
    match p {
        PlanV::Empty => Transformed::No(p),
        PlanV::Scan { .. } => Transformed::No(p),
        PlanV::GraphRel { left, center, right, alias, left_connection, .. } => {
            if left_connection == anchor {
                Transformed::Yes(rotate(node_anchor_start(p), *right))
            } else if alias == anchor {
                Transformed::Yes(rotate(rel_anchor_start(p), *right))
            } else {
                rebuild_rel(
                    p,
                    rotation(*left, anchor),
                    rotation(*center, anchor),
                    rotation(*right, anchor),
                )
            }
        },
        PlanV::Union { inputs } => rebuild_union(p, rotation_all(inputs, anchor)),
        _ => rebuild(p, rotation(p.input(), anchor)),
    }
}

pub open spec fn rotation_all(s: Seq<PlanV>, anchor: Text) -> Seq<Transformed<PlanV>>
    decreases s,
{
    if s.len() == 0 {
        Seq::empty()
    } else {
        rotation_all(s.drop_last(), anchor).push(rotation(s.last(), anchor))
    }
}

/// What the pass makes of a plan for a given anchor. The first
/// relationship on the way down stays with all below it where its right
/// connection is the anchor: the anchor starts the traversal already. Else
/// the plan is rotated at the relationship that the anchor is the left
/// connection of, or that is itself the anchor.
pub open spec fn anchor_traversal(p: PlanV, anchor: Text) -> Transformed<PlanV>
    decreases p,
{
    match p {
        PlanV::Empty => Transformed::No(p),
        PlanV::Scan { .. } => Transformed::No(p),
        PlanV::GraphRel { right_connection, .. } => {
            if right_connection == anchor {
                Transformed::No(p)
            } else {
                rotation(p, anchor)
            }
        },
        PlanV::Union { inputs } => rebuild_union(p, anchor_traversal_all(inputs, anchor)),
        _ => rebuild(p, anchor_traversal(p.input(), anchor)),
    }
}

pub open spec fn anchor_traversal_all(s: Seq<PlanV>, anchor: Text) -> Seq<Transformed<PlanV>>
    decreases s,
{
    if s.len() == 0 {
        Seq::empty()
    } else {
        anchor_traversal_all(s.drop_last(), anchor).push(anchor_traversal(s.last(), anchor))
    }
}

/// What the pass makes of a plan: rotated around the anchor, or as it is
/// where no alias has a predicate.
pub open spec fn anchor_node_selection(p: PlanV, ctx: PlanCtxV) -> Transformed<PlanV> {
    match anchor_alias(ctx) {
        Some(anchor) => anchor_traversal(p, anchor),
        None => Transformed::No(p),
    }
}

/// The alias of the node that a walk reaches which keeps to the right
/// child of every relationship.
pub open spec fn rightmost_node(p: PlanV) -> Option<Text>
    decreases p,
{
    match p {
        PlanV::GraphNode { alias, .. } => Some(alias),
        PlanV::GraphRel { right, .. } => rightmost_node(*right),
        PlanV::Empty => None,
        PlanV::Scan { .. } => None,
        PlanV::Union { .. } => None,
        _ => rightmost_node(p.input()),
    }
}

/// Re-parenting keeps the start of the chain: the node at the far right of
/// `prev` is the node at the far right of the rotated chain.
pub proof fn lemma_rotate_keeps_rightmost(prev: PlanV, remaining: PlanV)
    requires
        prev is GraphRel,
    ensures
        rightmost_node(rotate(prev, remaining)) == rightmost_node(prev),
        rotate(prev, remaining) is GraphRel,
    decreases remaining,
{
    match (prev, remaining) {
        (
            PlanV::GraphRel {
                left: p_left,
                center: p_center,
                right: p_right,
                alias: p_alias,
                direction: p_direction,
                left_connection: p_lc,
                right_connection: p_rc,
                is_rel_anchor: p_anchor,
            },
            PlanV::GraphRel {
                left,
                center,
                right,
                alias,
                direction,
                left_connection,
                right_connection,
                is_rel_anchor,
            },
        ) => {
            let attached = if p_lc == left_connection {
                left
            } else {
                right
            };
            let next = if p_lc == left_connection {
                right
            } else {
                left
            };
            let inner = PlanV::GraphRel {
                left: attached,
                center: p_center,
                right: p_right,
                alias: p_alias,
                direction: p_direction,
                left_connection: p_lc,
                right_connection: p_rc,
                is_rel_anchor: p_anchor,
            };
            let outer = PlanV::GraphRel {
                left: Box::new(PlanV::Empty),
                center,
                right: Box::new(inner),
                alias,
                direction: if p_lc == left_connection {
                    direction.reversed()
                } else {
                    direction
                },
                left_connection: if p_lc == left_connection {
                    right_connection
                } else {
                    left_connection
                },
                right_connection: if p_lc == left_connection {
                    left_connection
                } else {
                    right_connection
                },
                is_rel_anchor: false,
            };
            lemma_rotate_keeps_rightmost(outer, *next);
            assert(rightmost_node(outer) == rightmost_node(inner));
            assert(rightmost_node(inner) == rightmost_node(prev));
        },
        _ => {},
    }
}

fn rotate_plan(prev: GraphRel, remaining: &Arc<LogicalPlan>) -> (r: Arc<LogicalPlan>)
    ensures
        (*r)@ == rotate(LogicalPlan::GraphRel(prev)@, remaining@),
    decreases remaining,
{
    let ghost prev_view = LogicalPlan::GraphRel(prev)@;
    match &**remaining {
        LogicalPlan::GraphNode(node) => {
            let r = Arc::new(
                LogicalPlan::GraphRel(
                    GraphRel {
                        left: Arc::new(
                            LogicalPlan::GraphNode(
                                GraphNode {
                                    input: node.input.clone(),
                                    alias: node.alias.clone(),
                                    down_connection: clone_opt_string(&node.down_connection),
                                },
                            ),
                        ),
                        center: prev.center,
                        right: prev.right,
                        alias: prev.alias,
                        direction: prev.direction,
                        left_connection: node.alias.clone(),
                        right_connection: prev.right_connection,
                        is_rel_anchor: prev.is_rel_anchor,
                    },
                ),
            );
            assert((*r)@ == rotate(prev_view, remaining@));
            r
        },
        LogicalPlan::GraphRel(rel) => {
            let same = prev.left_connection == rel.left_connection;
            let attached = if same {
                rel.left.clone()
            } else {
                rel.right.clone()
            };
            let inner = GraphRel {
                left: attached,
                center: prev.center,
                right: prev.right,
                alias: prev.alias,
                direction: prev.direction,
                left_connection: prev.left_connection,
                right_connection: prev.right_connection,
                is_rel_anchor: prev.is_rel_anchor,
            };
            let ghost inner_view = LogicalPlan::GraphRel(inner)@;
            let inner_plan = Arc::new(LogicalPlan::GraphRel(inner));
            let empty_plan = Arc::new(LogicalPlan::Empty);
            assert((*empty_plan)@ == PlanV::Empty);
            let outer = GraphRel {
                left: empty_plan,
                center: rel.center.clone(),
                right: inner_plan,
                alias: rel.alias.clone(),
                direction: if same {
                    rel.direction.reverse()
                } else {
                    rel.direction
                },
                left_connection: if same {
                    rel.right_connection.clone()
                } else {
                    rel.left_connection.clone()
                },
                right_connection: if same {
                    rel.left_connection.clone()
                } else {
                    rel.right_connection.clone()
                },
                is_rel_anchor: false,
            };
            let ghost outer_view = LogicalPlan::GraphRel(outer)@;
            let r = if same {
                rotate_plan(outer, &rel.right)
            } else {
                rotate_plan(outer, &rel.left)
            };
            assert((*r)@ == rotate(outer_view, if same {
                rel.right@
            } else {
                rel.left@
            }));
            proof {
                let pv = prev_view;
                let rv = remaining@;
                assert(pv is GraphRel);
                assert(rv is GraphRel);
                let attached = if same {
                    rv->left
                } else {
                    rv->right
                };
                let spec_inner = PlanV::GraphRel {
                    left: attached,
                    center: pv->center,
                    right: pv->right,
                    alias: pv->GraphRel_alias,
                    direction: pv->direction,
                    left_connection: pv->left_connection,
                    right_connection: pv->right_connection,
                    is_rel_anchor: pv->is_rel_anchor,
                };
                let spec_outer = PlanV::GraphRel {
                    left: Box::new(PlanV::Empty),
                    center: rv->center,
                    right: Box::new(spec_inner),
                    alias: rv->GraphRel_alias,
                    direction: if same {
                        rv->direction.reversed()
                    } else {
                        rv->direction
                    },
                    left_connection: if same {
                        rv->right_connection
                    } else {
                        rv->left_connection
                    },
                    right_connection: if same {
                        rv->left_connection
                    } else {
                        rv->right_connection
                    },
                    is_rel_anchor: false,
                };
                assert(same == (pv->left_connection == rv->left_connection));
                assert(inner_view == spec_inner);
                assert(outer_view == spec_outer);
                assert(rotate(pv, rv) == rotate(spec_outer, if same {
                    *rv->right
                } else {
                    *rv->left
                }));
            }
            assert(rotate(prev_view, remaining@) == rotate(outer_view, if same {
                rel.right@
            } else {
                rel.left@
            }));
            r
        },
        _ => {
            let r = Arc::new(LogicalPlan::GraphRel(prev));
            assert((*r)@ == rotate(prev_view, remaining@));
            r
        },
    }
}

impl AnchorNodeSelection {
    pub fn new() -> (r: Self)
        ensures
            r == AnchorNodeSelection,
    {
        AnchorNodeSelection
    }

    /// The alias with the most pushed-down predicates, if it has any.
    pub fn find_anchor_node(&self, plan_ctx: &PlanCtx) -> (r: Option<String>)
        ensures
            opt_view(r) == anchor_alias(plan_ctx@),
    {
        let entries = plan_ctx.get_alias_table_ctx_map();
        let ghost ev = plan_ctx@.entries;
        if entries.len() == 0 {
            return None;
        }
        let mut best: usize = 0;
        let mut i: usize = 1;
        assert(ev.take(1).drop_last() =~= Seq::empty());
        assert(densest(Seq::<(Text, TableCtxV)>::empty()) is None);
        assert(densest(ev.take(1)) == Some(0int));
        while i < entries.len()
            invariant
                1 <= i <= entries.len(),
                ev == entries_view(entries@),
                best < i,
                densest(ev.take(i as int)) == Some(best as int),
            decreases entries.len() - i,
        {
            proof {
                assert(ev.take(i + 1).drop_last() =~= ev.take(i as int));
                assert(ev.take(i + 1).last() == ev[i as int]);
                assert(ev.take(i as int)[best as int] == ev[best as int]);
            }
            if entries[i].1.get_filters().len() > entries[best].1.get_filters().len() {
                best = i;
            }
            i += 1;
        }
        assert(ev.take(entries.len() as int) =~= ev);
        if entries[best].1.get_filters().len() > 0 {
            Some(entries[best].0.clone())
        } else {
            None
        }
    }


    /// Rotates the plan around the given anchor.
    pub fn anchor_traversal(&self, anchor_node_alias: &String, plan: &Arc<LogicalPlan>) -> (r:
        Transformed<Arc<LogicalPlan>>)
        ensures
            tf_view(r) == anchor_traversal(plan@, anchor_node_alias@),
            r is No ==> r.plan() == *plan,
        decreases plan,
    {
        match &**plan {
            LogicalPlan::Empty => Transformed::No(plan.clone()),
            LogicalPlan::Scan(_) => Transformed::No(plan.clone()),
            LogicalPlan::GraphRel(rel) => {
                if rel.right_connection == *anchor_node_alias {
                    Transformed::No(plan.clone())
                } else {
                    rotate_around(anchor_node_alias, plan)
                }
            },
            LogicalPlan::Union(_) => {
                let n = union_len(plan);
                let mut tfs: Vec<Transformed<Arc<LogicalPlan>>> = Vec::new();
                let mut i: usize = 0;
                let ghost inputs = plan@->inputs;
                while i < n
                    invariant
                        i <= n,
                        plan@ is Union,
                        inputs == plan@->inputs,
                        n == inputs.len(),
                        tfs_view(tfs@) == anchor_traversal_all(
                            inputs.take(i as int),
                            anchor_node_alias@,
                        ),
                    decreases n - i,
                {
                    let child = union_input(plan, i);
                    let tf = self.anchor_traversal(anchor_node_alias, &child);
                    proof {
                        assert(inputs.take(i + 1).drop_last() =~= inputs.take(i as int));
                        assert(tfs_view(tfs@.push(tf)) =~= tfs_view(tfs@).push(tf_view(tf)));
                    }
                    tfs.push(tf);
                    i += 1;
                }
                assert(inputs.take(n as int) =~= inputs);
                rebuild_union_node(plan, tfs)
            },
            _ => {
                let child = single_input(plan).unwrap();
                let tf = self.anchor_traversal(anchor_node_alias, &child);
                rebuild_single(plan, tf)
            },
        }
    }
}

fn rotate_around(anchor_node_alias: &String, plan: &Arc<LogicalPlan>) -> (r: Transformed<
    Arc<LogicalPlan>,
>)
    ensures
        tf_view(r) == rotation(plan@, anchor_node_alias@),
        r is No ==> r.plan() == *plan,
    decreases plan,
{
    match &**plan {
        LogicalPlan::Empty => Transformed::No(plan.clone()),
        LogicalPlan::Scan(_) => Transformed::No(plan.clone()),
        LogicalPlan::GraphRel(rel) => {
            if rel.left_connection == *anchor_node_alias {
                let start = GraphRel {
                    left: Arc::new(LogicalPlan::Empty),
                    center: rel.center.clone(),
                    right: rel.left.clone(),
                    alias: rel.alias.clone(),
                    direction: rel.direction.reverse(),
                    left_connection: rel.right_connection.clone(),
                    right_connection: rel.left_connection.clone(),
                    is_rel_anchor: false,
                };
                Transformed::Yes(rotate_plan(start, &rel.right))
            } else if rel.alias == *anchor_node_alias {
                let start = GraphRel {
                    left: Arc::new(LogicalPlan::Empty),
                    center: rel.left.clone(),
                    right: rel.center.clone(),
                    alias: rel.alias.clone(),
                    direction: rel.direction.reverse(),
                    left_connection: rel.right_connection.clone(),
                    right_connection: rel.left_connection.clone(),
                    is_rel_anchor: true,
                };
                Transformed::Yes(rotate_plan(start, &rel.right))
            } else {
                let left_tf = rotate_around(anchor_node_alias, &rel.left);
                let center_tf = rotate_around(anchor_node_alias, &rel.center);
                let right_tf = rotate_around(anchor_node_alias, &rel.right);
                rebuild_graph_rel(plan, left_tf, center_tf, right_tf)
            }
        },
        LogicalPlan::Union(_) => {
            let n = union_len(plan);
            let mut tfs: Vec<Transformed<Arc<LogicalPlan>>> = Vec::new();
            let mut i: usize = 0;
            let ghost inputs = plan@->inputs;
            while i < n
                invariant
                    i <= n,
                    plan@ is Union,
                    inputs == plan@->inputs,
                    n == inputs.len(),
                    tfs_view(tfs@) == rotation_all(inputs.take(i as int), anchor_node_alias@),
                decreases n - i,
            {
                let child = union_input(plan, i);
                let tf = rotate_around(anchor_node_alias, &child);
                proof {
                    assert(inputs.take(i + 1).drop_last() =~= inputs.take(i as int));
                    assert(tfs_view(tfs@.push(tf)) =~= tfs_view(tfs@).push(tf_view(tf)));
                }
                tfs.push(tf);
                i += 1;
            }
            assert(inputs.take(n as int) =~= inputs);
            rebuild_union_node(plan, tfs)
        },
        _ => {
            let child = single_input(plan).unwrap();
            let tf = rotate_around(anchor_node_alias, &child);
            rebuild_single(plan, tf)
        },
    }
}

impl OptimizerPass for AnchorNodeSelection {
    open spec fn optimized(&self, plan: PlanV, ctx: PlanCtxV) -> Transformed<PlanV> {
        anchor_node_selection(plan, ctx)
    }

    /// Rotates the plan around the anchor.
    fn optimize(&self, logical_plan: Arc<LogicalPlan>, plan_ctx: &mut PlanCtx) -> (r: Result<
        Transformed<Arc<LogicalPlan>>,
        OptimizerError,
    >) {
        match self.find_anchor_node(plan_ctx) {
            Some(anchor) => Ok(self.anchor_traversal(&anchor, &logical_plan)),
            None => Ok(Transformed::No(logical_plan)),
        }
    }
}

} // verus!
