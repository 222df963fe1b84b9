//! Laws of the passes, proved from their definitions.
use vstd::multiset::Multiset;
use vstd::prelude::*;
use crate::analyzer::duplicate_scans_removing::dedup;
use crate::analyzer::filter_tagging::{
    filter_tagging, filter_tagging_all, one_alias, prop_accesses, tag_conjunct, tag_conjuncts,
    tag_leaf, tag_projections, to_columns, with_filter, with_projection,
};
use crate::analyzer::graph_join_inference::{
    collect_joins, collect_joins_all, join_context, join_inference, rel_joins, wrap_projections,
    wrap_projections_all,
};
use crate::analyzer::graph_traversal_planning::{graph_context, plan_traversal};
use crate::analyzer::pattern_lookup::pattern_miss;
use crate::analyzer::group_by_building::group_by_building;
use crate::analyzer::last_node_tagging::tagged_last_node;
use crate::analyzer::projection_tagging::{
    explicit_alias_items, has_star, projection_tagging, projection_tagging_all, star_item,
    tag_expr, tag_items, tag_nested,
};
use crate::analyzer::schema_inference::{push_table_names, push_table_names_all};
use crate::ast::OpenCypherQueryAst;
use crate::expr::{ExprV, Operator, PropertyAccessV};
use crate::graph_schema::GraphSchemaV;
use crate::logical_plan::{rebuild, rel_connections, JoinV, PlanV, ProjectionItemV};
use crate::optimizer::anchor_node_selection::{
    anchor_node_selection, anchor_traversal, lemma_rotate_keeps_rightmost, node_anchor_start,
    rel_anchor_start, rightmost_node, rotate, rotation,
};
use crate::optimizer::filter_push_down::{filter_push_down, filter_push_down_all};
use crate::optimizer::projection_push_down::{projection_push_down, projection_push_down_all};
use crate::ast::{ConnectedPatternV, PathPatternV};
use crate::expr::PropertyV;
use crate::plan_builder::{
    alias_or, built_plan, connect, connect_all, fresh_ctx, match_clause_plan, match_patterns,
    merged, merged_ctx, node_plan, patterns_ids, projection_items, properties_converted,
    rel_plan, scan_plan, wrapped,
};
use crate::plan_ctx::{PlanCtxV, TableCtxV};
use crate::errors::{Pass, RenderBuildError};
use crate::render_plan::plan_builder::{
    clean_all, clean_filters, ctes, last_node_alias, last_node_cte, node_alias, render_plan,
    select_items, select_items_of,
};
use crate::render_plan::{cte_names, CteV, SelectItemV};
use crate::transformed::Transformed;
use crate::views::{distinct, seq_view, Text};

verus! {

/// A pass that reports no change hands back the plan that it was given:
/// this holds of every optimizer pass.
pub proof fn lemma_unchanged_optimizer_plan_is_same(p: PlanV, ctx: PlanCtxV, anchor: Text)
    ensures
        filter_push_down(p, ctx) is No ==> filter_push_down(p, ctx).plan() == p,
        projection_push_down(p, ctx) is No ==> projection_push_down(p, ctx).plan() == p,
        anchor_traversal(p, anchor) is No ==> anchor_traversal(p, anchor).plan() == p,
        anchor_node_selection(p, ctx) is No ==> anchor_node_selection(p, ctx).plan() == p,
{
}

/// A pass that reports no change hands back the plan that it was given:
/// this holds of every analyzer pass.
pub proof fn lemma_unchanged_analyzer_plan_is_same(
    p: PlanV,
    ctx: PlanCtxV,
    schema: GraphSchemaV,
    seen: Set<Text>,
    joins: Seq<JoinV>,
    ids: Seq<Text>,
    next: int,
)
    ensures
        group_by_building(p) is No ==> group_by_building(p).plan() == p,
        dedup(p, seen).0 is No ==> dedup(p, seen).0.plan() == p,
        wrap_projections(p, joins) is No ==> wrap_projections(p, joins).plan() == p,
        join_inference(p, ctx, schema) matches Ok(tf) ==> (tf is No ==> tf.plan() == p),
        push_table_names(p, ctx) matches Ok(tf) ==> (tf is No ==> tf.plan() == p),
        filter_tagging(p, ctx) matches Ok((tf, _)) ==> (tf is No ==> tf.plan() == p),
        projection_tagging(p, ctx) matches Ok((tf, _)) ==> (tf is No ==> tf.plan() == p),
        plan_traversal(p, ctx, schema, ids, next) matches Ok((tf, _)) ==> (tf is No ==> tf.plan()
            == p),
{
}

/// `true` when the plan holds a scan whose alias has pushed-down predicates.
pub open spec fn has_pending_filters(p: PlanV, ctx: PlanCtxV) -> bool
    decreases p,
{
    match p {
        PlanV::Empty => false,
        PlanV::Scan { table_alias, .. } => match ctx.get(table_alias) {
            Some(t) => t.filter_predicates.len() > 0,
            None => false,
        },
        PlanV::GraphRel { left, center, right, .. } => has_pending_filters(*left, ctx)
            || has_pending_filters(*center, ctx) || has_pending_filters(*right, ctx),
        PlanV::Union { inputs } => any_pending_filters(inputs, ctx),
        _ => has_pending_filters(p.input(), ctx),
    }
}

pub open spec fn any_pending_filters(s: Seq<PlanV>, ctx: PlanCtxV) -> bool
    decreases s,
{
    if s.len() == 0 {
        false
    } else {
        any_pending_filters(s.drop_last(), ctx) || has_pending_filters(s.last(), ctx)
    }
}

/// Filter push-down changes a plan exactly when the plan holds a scan
/// whose alias has pushed-down predicates.
pub proof fn lemma_filter_push_down_changes(p: PlanV, ctx: PlanCtxV)
    ensures
        filter_push_down(p, ctx) is Yes <==> has_pending_filters(p, ctx),
        !has_pending_filters(p, ctx) ==> filter_push_down(p, ctx) == Transformed::No(p),
    decreases p,
{
    match p {
        PlanV::Empty => {},
        PlanV::Scan { .. } => {},
        PlanV::GraphRel { left, center, right, .. } => {
            lemma_filter_push_down_changes(*left, ctx);
            lemma_filter_push_down_changes(*center, ctx);
            lemma_filter_push_down_changes(*right, ctx);
        },
        PlanV::Union { inputs } => {
            lemma_filter_push_down_all_changes(inputs, ctx);
        },
        _ => {
            lemma_filter_push_down_changes(p.input(), ctx);
        },
    }
}

pub proof fn lemma_filter_push_down_all_changes(s: Seq<PlanV>, ctx: PlanCtxV)
    ensures
        filter_push_down_all(s, ctx).len() == s.len(),
        (exists|i: int| 0 <= i < s.len() && filter_push_down_all(s, ctx)[i] is Yes)
            <==> any_pending_filters(s, ctx),
    decreases s,
{
    if s.len() > 0 {
        let init = s.drop_last();
        lemma_filter_push_down_all_changes(init, ctx);
        lemma_filter_push_down_changes(s.last(), ctx);
        let all = filter_push_down_all(s, ctx);
        let before = filter_push_down_all(init, ctx);
        assert(all == before.push(filter_push_down(s.last(), ctx)));
        if exists|i: int| 0 <= i < s.len() && all[i] is Yes {
            let i = choose|i: int| 0 <= i < s.len() && all[i] is Yes;
            if i < init.len() {
                assert(before[i] is Yes);
            }
        }
        if any_pending_filters(init, ctx) {
            let i = choose|i: int| 0 <= i < init.len() && before[i] is Yes;
            assert(all[i] is Yes);
        }
        if has_pending_filters(s.last(), ctx) {
            assert(all[s.len() - 1] is Yes);
        }
    }
}

/// Filter push-down is idempotent on the plans that hold no scan whose
/// alias has pushed-down predicates: the second run gives what the first
/// gave. (On a plan with such a scan every run wraps the scan once more.)
pub proof fn lemma_filter_push_down_idempotent(p: PlanV, ctx: PlanCtxV)
    requires
        !has_pending_filters(p, ctx),
    ensures
        filter_push_down(filter_push_down(p, ctx).plan(), ctx) == filter_push_down(p, ctx),
{
    lemma_filter_push_down_changes(p, ctx);
}

/// `true` when the plan holds a scan whose alias has pushed-down projections.
pub open spec fn has_pending_projections(p: PlanV, ctx: PlanCtxV) -> bool
    decreases p,
{
    match p {
        PlanV::Empty => false,
        PlanV::Scan { table_alias, .. } => match ctx.get(table_alias) {
            Some(t) => t.projection_items.len() > 0,
            None => false,
        },
        PlanV::GraphRel { left, center, right, .. } => has_pending_projections(*left, ctx)
            || has_pending_projections(*center, ctx) || has_pending_projections(*right, ctx),
        PlanV::Union { inputs } => any_pending_projections(inputs, ctx),
        _ => has_pending_projections(p.input(), ctx),
    }
}

pub open spec fn any_pending_projections(s: Seq<PlanV>, ctx: PlanCtxV) -> bool
    decreases s,
{
    if s.len() == 0 {
        false
    } else {
        any_pending_projections(s.drop_last(), ctx) || has_pending_projections(s.last(), ctx)
    }
}

/// Projection push-down changes a plan exactly when the plan holds a scan
/// whose alias has pushed-down projections.
pub proof fn lemma_projection_push_down_changes(p: PlanV, ctx: PlanCtxV)
    ensures
        projection_push_down(p, ctx) is Yes <==> has_pending_projections(p, ctx),
        !has_pending_projections(p, ctx) ==> projection_push_down(p, ctx) == Transformed::No(p),
    decreases p,
{
    match p {
        PlanV::Empty => {},
        PlanV::Scan { .. } => {},
        PlanV::GraphRel { left, center, right, .. } => {
            lemma_projection_push_down_changes(*left, ctx);
            lemma_projection_push_down_changes(*center, ctx);
            lemma_projection_push_down_changes(*right, ctx);
        },
        PlanV::Union { inputs } => {
            lemma_projection_push_down_all_changes(inputs, ctx);
        },
        _ => {
            lemma_projection_push_down_changes(p.input(), ctx);
        },
    }
}

pub proof fn lemma_projection_push_down_all_changes(s: Seq<PlanV>, ctx: PlanCtxV)
    ensures
        projection_push_down_all(s, ctx).len() == s.len(),
        (exists|i: int| 0 <= i < s.len() && projection_push_down_all(s, ctx)[i] is Yes)
            <==> any_pending_projections(s, ctx),
    decreases s,
{
    if s.len() > 0 {
        let init = s.drop_last();
        lemma_projection_push_down_all_changes(init, ctx);
        lemma_projection_push_down_changes(s.last(), ctx);
        let all = projection_push_down_all(s, ctx);
        let before = projection_push_down_all(init, ctx);
        assert(all == before.push(projection_push_down(s.last(), ctx)));
        if exists|i: int| 0 <= i < s.len() && all[i] is Yes {
            let i = choose|i: int| 0 <= i < s.len() && all[i] is Yes;
            if i < init.len() {
                assert(before[i] is Yes);
            }
        }
        if any_pending_projections(init, ctx) {
            let i = choose|i: int| 0 <= i < init.len() && before[i] is Yes;
            assert(all[i] is Yes);
        }
        if has_pending_projections(s.last(), ctx) {
            assert(all[s.len() - 1] is Yes);
        }
    }
}

/// Projection push-down is idempotent on the plans that hold no scan whose
/// alias has pushed-down projections. (On a plan with such a scan every
/// run wraps the scan once more.)
pub proof fn lemma_projection_push_down_idempotent(p: PlanV, ctx: PlanCtxV)
    requires
        !has_pending_projections(p, ctx),
    ensures
        projection_push_down(projection_push_down(p, ctx).plan(), ctx) == projection_push_down(
            p,
            ctx,
        ),
{
    lemma_projection_push_down_changes(p, ctx);
}

/// The scans of a plan, each with its alias and its table, from left to right.
pub open spec fn scans(p: PlanV) -> Seq<(Text, Option<Text>)>
    decreases p,
{
    match p {
        PlanV::Empty => Seq::empty(),
        PlanV::Scan { table_alias, table_name } => seq![(table_alias, table_name)],
        PlanV::GraphRel { left, center, right, .. } => scans(*left) + scans(*center) + scans(
            *right,
        ),
        PlanV::Union { inputs } => scans_all(inputs),
        _ => scans(p.input()),
    }
}

pub open spec fn scans_all(s: Seq<PlanV>) -> Seq<(Text, Option<Text>)>
    decreases s,
{
    if s.len() == 0 {
        Seq::empty()
    } else {
        scans_all(s.drop_last()) + scans(s.last())
    }
}

/// The label that the context holds for an alias.
pub open spec fn label_of(ctx: PlanCtxV, alias: Text) -> Option<Text> {
    match ctx.get(alias) {
        Some(t) => t.label,
        None => None,
    }
}

/// The scans with the table of each taken from the label of its alias.
pub open spec fn labelled(ss: Seq<(Text, Option<Text>)>, ctx: PlanCtxV) -> Seq<(Text, Option<Text>)> {
    Seq::new(ss.len(), |i: int| (ss[i].0, label_of(ctx, ss[i].0)))
}

/// `true` when the context holds the alias of every scan.
pub open spec fn all_known(ss: Seq<(Text, Option<Text>)>, ctx: PlanCtxV) -> bool {
    forall|i: int| 0 <= i < ss.len() ==> ctx.contains(#[trigger] ss[i].0)
}

proof fn lemma_labelled_concat(
    a: Seq<(Text, Option<Text>)>,
    b: Seq<(Text, Option<Text>)>,
    ctx: PlanCtxV,
)
    ensures
        labelled(a + b, ctx) == labelled(a, ctx) + labelled(b, ctx),
        all_known(a + b, ctx) == (all_known(a, ctx) && all_known(b, ctx)),
{
    assert(labelled(a + b, ctx) =~= labelled(a, ctx) + labelled(b, ctx));
    if all_known(a, ctx) && all_known(b, ctx) {
        assert forall|i: int| 0 <= i < (a + b).len() implies ctx.contains(#[trigger] (a + b)[i].0) by {
            if i < a.len() {
                assert((a + b)[i] == a[i]);
            } else {
                assert((a + b)[i] == b[i - a.len()]);
            }
        }
    }
    if all_known(a + b, ctx) {
        assert forall|i: int| 0 <= i < a.len() implies ctx.contains(#[trigger] a[i].0) by {
            assert((a + b)[i] == a[i]);
        }
        assert forall|i: int| 0 <= i < b.len() implies ctx.contains(#[trigger] b[i].0) by {
            assert((a + b)[i + a.len()] == b[i]);
        }
    }
}

/// After the tables of the scans were filled in, every scan leaf has the
/// alias that it had, the context holds that alias, and the table of the
/// scan is the label that the context holds for it.
pub proof fn lemma_scans_keep_their_alias(p: PlanV, ctx: PlanCtxV)
    ensures
        push_table_names(p, ctx) matches Ok(tf) ==> scans(tf.plan()) == labelled(scans(p), ctx)
            && all_known(scans(p), ctx) && (tf is No ==> scans(p).len() == 0),
    decreases p,
{
    match p {
        PlanV::Empty => {
            assert(labelled(scans(p), ctx) =~= Seq::empty());
        },
        PlanV::Scan { table_alias, table_name } => {
            if push_table_names(p, ctx) is Ok {
                crate::assoc::lemma_has_key_first(ctx.entries, table_alias);
                assert(labelled(scans(p), ctx) =~= seq![(table_alias, label_of(ctx, table_alias))]);
                if ctx.get(table_alias) is Some {
                    assert(ctx.contains(table_alias));
                }
            }
        },
        PlanV::GraphRel { left, center, right, .. } => {
            lemma_scans_keep_their_alias(*left, ctx);
            lemma_scans_keep_their_alias(*center, ctx);
            lemma_scans_keep_their_alias(*right, ctx);
            if push_table_names(p, ctx) is Ok {
                lemma_labelled_concat(scans(*left), scans(*center), ctx);
                lemma_labelled_concat(scans(*left) + scans(*center), scans(*right), ctx);
                let tf = push_table_names(p, ctx)->Ok_0;
                if tf is No {
                    assert(scans(p) =~= Seq::empty());
                    assert(labelled(scans(p), ctx) =~= Seq::empty());
                }
            }
        },
        PlanV::Union { inputs } => {
            lemma_scans_keep_their_alias_all(inputs, ctx);
            if push_table_names(p, ctx) is Ok {
                let tfs = push_table_names_all(inputs, ctx)->Ok_0;
                let tf = push_table_names(p, ctx)->Ok_0;
                if tf is No {
                    assert(labelled(scans(p), ctx) =~= Seq::empty());
                } else {
                    assert(tf.plan() == PlanV::Union {
                        inputs: Seq::new(tfs.len(), |i: int| tfs[i].plan()),
                    });
                }
            }
        },
        _ => {
            lemma_scans_keep_their_alias(p.input(), ctx);
            if push_table_names(p, ctx) is Ok {
                let tf = push_table_names(p.input(), ctx)->Ok_0;
                if tf is Yes {
                    if p is Cte && tf.plan() is Empty {
                        assert(scans(PlanV::Empty) =~= Seq::empty());
                    }
                }
            }
        },
    }
}

pub proof fn lemma_scans_keep_their_alias_all(s: Seq<PlanV>, ctx: PlanCtxV)
    ensures
        push_table_names_all(s, ctx) matches Ok(tfs) ==> tfs.len() == s.len() && scans_all(
            Seq::new(tfs.len(), |i: int| tfs[i].plan()),
        ) == labelled(scans_all(s), ctx) && all_known(scans_all(s), ctx) && ((forall|i: int|
            0 <= i < tfs.len() ==> tfs[i] is No) ==> scans_all(s).len() == 0),
    decreases s,
{
    if s.len() == 0 {
        assert(labelled(scans_all(s), ctx) =~= Seq::empty());
        if push_table_names_all(s, ctx) is Ok {
            let tfs = push_table_names_all(s, ctx)->Ok_0;
            assert(Seq::new(tfs.len(), |i: int| tfs[i].plan()) =~= Seq::<PlanV>::empty());
        }
    } else {
        let init = s.drop_last();
        lemma_scans_keep_their_alias_all(init, ctx);
        lemma_scans_keep_their_alias(s.last(), ctx);
        if push_table_names_all(s, ctx) is Ok {
            let before = push_table_names_all(init, ctx)->Ok_0;
            let tf = push_table_names(s.last(), ctx)->Ok_0;
            let tfs = push_table_names_all(s, ctx)->Ok_0;
            assert(tfs == before.push(tf));
            let plans = Seq::new(tfs.len(), |i: int| tfs[i].plan());
            let plans_before = Seq::new(before.len(), |i: int| before[i].plan());
            assert(plans.drop_last() =~= plans_before);
            assert(plans.last() == tf.plan());
            lemma_labelled_concat(scans_all(init), scans(s.last()), ctx);
            if forall|i: int| 0 <= i < tfs.len() ==> tfs[i] is No {
                assert forall|i: int| 0 <= i < before.len() implies before[i] is No by {
                    assert(tfs[i] is No);
                }
                assert(tfs[tfs.len() - 1] is No);
            }
        }
    }
}

/// The aliases of the graph nodes of a plan, in the order in which
/// duplicate-scan removal meets them: of a relationship the right child
/// first, then the center, then the left.
pub open spec fn node_aliases(p: PlanV) -> Seq<Text>
    decreases p,
{
    match p {
        PlanV::Empty => Seq::empty(),
        PlanV::Scan { .. } => Seq::empty(),
        PlanV::GraphNode { input, alias, .. } => seq![alias] + node_aliases(*input),
        PlanV::GraphRel { left, center, right, .. } => node_aliases(*right) + node_aliases(
            *center,
        ) + node_aliases(*left),
        PlanV::Union { inputs } => node_aliases_all(inputs),
        _ => node_aliases(p.input()),
    }
}

pub open spec fn node_aliases_all(s: Seq<PlanV>) -> Seq<Text>
    decreases s,
{
    if s.len() == 0 {
        Seq::empty()
    } else {
        node_aliases_all(s.drop_last()) + node_aliases(s.last())
    }
}

/// `true` for a plan without relationships and unions.
pub open spec fn is_simple(p: PlanV) -> bool
    decreases p,
{
    match p {
        PlanV::Empty => true,
        PlanV::Scan { .. } => true,
        PlanV::GraphRel { .. } => false,
        PlanV::Union { .. } => false,
        _ => is_simple(p.input()),
    }
}

/// `true` for a chain of relationships as the builder makes them: the
/// right child of every relationship is the rest of the chain, down to
/// one start node; the left child is `Empty` or holds the one node of the
/// left connection; the center holds no node.
pub open spec fn is_chain(p: PlanV) -> bool
    decreases p,
{
    match p {
        PlanV::Empty => false,
        PlanV::Scan { .. } => false,
        PlanV::Union { .. } => false,
        PlanV::GraphNode { input, .. } => is_simple(*input) && node_aliases(*input).len() == 0,
        PlanV::GraphRel { left, center, right, left_connection, .. } => {
            &&& is_simple(*center)
            &&& node_aliases(*center).len() == 0
            &&& is_simple(*left)
            &&& (node_aliases(*left).len() == 0 || node_aliases(*left) == seq![left_connection])
            &&& is_chain(*right)
        },
        _ => is_chain(p.input()),
    }
}

/// The alias of the node at which a chain starts.
pub open spec fn chain_start(p: PlanV) -> Text
    decreases p,
{
    match p {
        PlanV::Empty => Seq::empty(),
        PlanV::Scan { .. } => Seq::empty(),
        PlanV::Union { .. } => Seq::empty(),
        PlanV::GraphNode { alias, .. } => alias,
        PlanV::GraphRel { right, .. } => chain_start(*right),
        _ => chain_start(p.input()),
    }
}

/// The aliases met after a walk: those met before and those of the nodes
/// that the walk kept.
pub open spec fn met(after: Set<Text>, before: Set<Text>, aliases: Seq<Text>) -> bool {
    forall|a: Text| after.contains(a) <==> before.contains(a) || aliases.contains(a)
}

/// Duplicate-scan removal leaves a plan without relationships as it is,
/// and meets the aliases of its nodes.
pub proof fn lemma_dedup_simple(p: PlanV, seen: Set<Text>)
    requires
        is_simple(p),
    ensures
        dedup(p, seen).0 == Transformed::No(p),
        met(dedup(p, seen).1, seen, node_aliases(p)),
    decreases p,
{
    match p {
        PlanV::Empty => {},
        PlanV::Scan { .. } => {},
        PlanV::GraphNode { input, alias, .. } => {
            lemma_dedup_simple(*input, seen.insert(alias));
            let after = dedup(p, seen).1;
            let all = node_aliases(p);
            assert forall|a: Text| after.contains(a) <==> seen.contains(a) || all.contains(
                a,
            ) by {
                if a == alias {
                    assert(all[0] == alias);
                }
                if node_aliases(*input).contains(a) {
                    let k = choose|k: int|
                        0 <= k < node_aliases(*input).len() && node_aliases(*input)[k] == a;
                    assert(all[k + 1] == a);
                }
                if all.contains(a) {
                    let k = choose|k: int| 0 <= k < all.len() && all[k] == a;
                    if k > 0 {
                        assert(node_aliases(*input)[k - 1] == a);
                    }
                }
            }
        },
        PlanV::GraphRel { .. } => {},
        PlanV::Union { .. } => {},
        _ => {
            lemma_dedup_simple(p.input(), seen);
        },
    }
}

/// After duplicate-scan removal on a chain, every node alias belongs to
/// one node only: the aliases of the nodes of the plan are distinct, and
/// none of them was met before.
pub proof fn lemma_dedup_chain(p: PlanV, seen: Set<Text>)
    requires
        is_chain(p),
        !seen.contains(chain_start(p)),
    ensures
        distinct(node_aliases(dedup(p, seen).0.plan())),
        forall|i: int|
            0 <= i < node_aliases(dedup(p, seen).0.plan()).len() ==> !seen.contains(
                #[trigger] node_aliases(dedup(p, seen).0.plan())[i],
            ),
        met(dedup(p, seen).1, seen, node_aliases(dedup(p, seen).0.plan())),
    decreases p,
{
    match p {
        PlanV::Empty => {},
        PlanV::Scan { .. } => {},
        PlanV::Union { .. } => {},
        PlanV::GraphNode { input, alias, .. } => {
            lemma_dedup_simple(p, seen);
            assert(node_aliases(p) =~= seq![alias]);
        },
        PlanV::GraphRel { left, center, right, left_connection, .. } => {
            lemma_dedup_chain(*right, seen);
            let (right_tf, s1) = dedup(*right, seen);
            lemma_dedup_simple(*center, s1);
            let (center_tf, s2) = dedup(*center, s1);
            let kept_right = node_aliases(right_tf.plan());
            assert(s2 =~= s1);
            let q = dedup(p, seen).0.plan();
            if s2.contains(left_connection) {
                assert(q == p.with_children(PlanV::Empty, center_tf.plan(), right_tf.plan()));
                assert(center_tf.plan() == *center);
                assert(node_aliases(PlanV::Empty) =~= Seq::<Text>::empty());
                assert(node_aliases(q) == kept_right + node_aliases(*center) + node_aliases(
                    PlanV::Empty,
                ));
                assert(node_aliases(*center) =~= Seq::<Text>::empty());
                assert(node_aliases(q) =~= kept_right);
            } else {
                lemma_dedup_simple(*left, s2);
                let s3 = dedup(*left, s2).1;
                if right_tf is Yes {
                    assert(q == p.with_children(*left, *center, right_tf.plan()));
                } else {
                    assert(q == p);
                }
                assert(node_aliases(*center) =~= Seq::<Text>::empty());
                assert(node_aliases(q) == kept_right + node_aliases(*center) + node_aliases(
                    *left,
                ));
                assert(node_aliases(q) =~= kept_right + node_aliases(*left));
                if node_aliases(*left).len() == 0 {
                    assert(node_aliases(q) =~= kept_right);
                    assert forall|a: Text| s3.contains(a) <==> seen.contains(a)
                        || kept_right.contains(a) by {}
                } else {
                    let all = kept_right.push(left_connection);
                    assert(node_aliases(q) =~= all);
                    assert(node_aliases(*left)[0] == left_connection);
                    assert(!kept_right.contains(left_connection));
                    assert forall|i: int, j: int| 0 <= i < j < all.len() implies all[i]
                        != all[j] by {
                        if j == kept_right.len() {
                            assert(kept_right[i] == all[i]);
                        }
                    }
                    assert forall|i: int| 0 <= i < all.len() implies !seen.contains(
                        #[trigger] all[i],
                    ) by {
                        if i < kept_right.len() {
                            assert(all[i] == kept_right[i]);
                        }
                    }
                    assert forall|a: Text| s3.contains(a) <==> seen.contains(a) || all.contains(
                        a,
                    ) by {
                        if kept_right.contains(a) {
                            let k = choose|k: int| 0 <= k < kept_right.len() && kept_right[k] == a;
                            assert(all[k] == a);
                        }
                        if a == left_connection {
                            assert(all[all.len() - 1] == a);
                        }
                        if all.contains(a) {
                            let k = choose|k: int| 0 <= k < all.len() && all[k] == a;
                            if k < kept_right.len() {
                                assert(kept_right[k] == a);
                            }
                        }
                    }
                }
            }
        },
        _ => {
            lemma_dedup_chain(p.input(), seen);
            let tf = dedup(p.input(), seen).0;
            let q = rebuild(p, tf).plan();
            assert(dedup(p, seen).0 == rebuild(p, tf));
            if tf is Yes {
                assert(q == p.with_input(tf.plan()));
                if p is Cte && tf.plan() is Empty {
                    assert(node_aliases(q) =~= node_aliases(tf.plan()));
                } else {
                    assert(node_aliases(q) == node_aliases(tf.plan()));
                }
            } else {
                assert(tf.plan() == p.input());
            }
        },
    }
}

proof fn lemma_contains_concat(a: Seq<Text>, b: Seq<Text>, x: Text)
    ensures
        (a + b).contains(x) <==> a.contains(x) || b.contains(x),
{
    if a.contains(x) {
        let k = choose|k: int| 0 <= k < a.len() && a[k] == x;
        assert((a + b)[k] == x);
    }
    if b.contains(x) {
        let k = choose|k: int| 0 <= k < b.len() && b[k] == x;
        assert((a + b)[a.len() + k] == x);
    }
    if (a + b).contains(x) {
        let k = choose|k: int| 0 <= k < (a + b).len() && (a + b)[k] == x;
        if k < a.len() {
            assert(a[k] == x);
        } else {
            assert(b[k - a.len()] == x);
        }
    }
}

/// Duplicate-scan removal on a chain meets the aliases of all its nodes,
/// whether it keeps the node or not.
pub proof fn lemma_dedup_meets_chain(p: PlanV, seen: Set<Text>)
    requires
        is_chain(p),
    ensures
        met(dedup(p, seen).1, seen, node_aliases(p)),
    decreases p,
{
    match p {
        PlanV::Empty => {},
        PlanV::Scan { .. } => {},
        PlanV::Union { .. } => {},
        PlanV::GraphNode { .. } => {
            lemma_dedup_simple(p, seen);
        },
        PlanV::GraphRel { left, center, right, left_connection, .. } => {
            lemma_dedup_meets_chain(*right, seen);
            let s1 = dedup(*right, seen).1;
            lemma_dedup_simple(*center, s1);
            let s2 = dedup(*center, s1).1;
            let s3 = dedup(p, seen).1;
            let r = node_aliases(*right);
            let c = node_aliases(*center);
            let l = node_aliases(*left);
            assert(node_aliases(p) == r + c + l);
            if !s2.contains(left_connection) {
                lemma_dedup_simple(*left, s2);
            }
            assert forall|a: Text| s3.contains(a) <==> seen.contains(a) || node_aliases(
                p,
            ).contains(a) by {
                lemma_contains_concat(r, c, a);
                lemma_contains_concat(r + c, l, a);
                if s2.contains(left_connection) && l.contains(a) {
                    let k = choose|k: int| 0 <= k < l.len() && l[k] == a;
                    assert(l == seq![left_connection]);
                    assert(a == left_connection);
                }
            }
        },
        _ => {
            lemma_dedup_meets_chain(p.input(), seen);
        },
    }
}

/// Duplicate-scan removal on a chain guarantees that each node alias
/// belongs to exactly one node, and so to one scan, of the final tree:
/// no alias has two nodes, and every alias that had a node has one.
pub proof fn lemma_duplicate_scans_removed(p: PlanV)
    requires
        is_chain(p),
    ensures
        distinct(node_aliases(dedup(p, Set::empty()).0.plan())),
        forall|a: Text|
            node_aliases(dedup(p, Set::empty()).0.plan()).contains(a) <==> node_aliases(
                p,
            ).contains(a),
{
    let none = Set::<Text>::empty();
    lemma_dedup_chain(p, none);
    lemma_dedup_meets_chain(p, none);
    let after = dedup(p, none).1;
    let kept = node_aliases(dedup(p, none).0.plan());
    assert forall|a: Text| kept.contains(a) <==> node_aliases(p).contains(a) by {
        assert(after.contains(a) <==> none.contains(a) || kept.contains(a));
        assert(after.contains(a) <==> none.contains(a) || node_aliases(p).contains(a));
    }
}

proof fn lemma_simple_has_no_relationship(p: PlanV)
    requires
        is_simple(p),
    ensures
        rel_connections(p) == Seq::<(Text, Text, Text)>::empty(),
    decreases p,
{
    match p {
        PlanV::Empty => {},
        PlanV::Scan { .. } => {},
        PlanV::GraphRel { .. } => {},
        PlanV::Union { .. } => {},
        _ => {
            lemma_simple_has_no_relationship(p.input());
        },
    }
}

/// Duplicate-scan removal on a chain keeps every relationship with its
/// alias and its connections: no relationship goes, and none comes.
pub proof fn lemma_dedup_keeps_relationships(p: PlanV, seen: Set<Text>)
    requires
        is_chain(p),
    ensures
        rel_connections(dedup(p, seen).0.plan()) == rel_connections(p),
    decreases p,
{
    match p {
        PlanV::Empty => {},
        PlanV::Scan { .. } => {},
        PlanV::Union { .. } => {},
        PlanV::GraphNode { .. } => {
            lemma_dedup_simple(p, seen);
        },
        PlanV::GraphRel { left, center, right, alias, left_connection, right_connection, .. } => {
            lemma_dedup_keeps_relationships(*right, seen);
            let (right_tf, s1) = dedup(*right, seen);
            lemma_dedup_simple(*center, s1);
            let (center_tf, s2) = dedup(*center, s1);
            lemma_simple_has_no_relationship(*left);
            let none = Seq::<(Text, Text, Text)>::empty();
            assert(rel_connections(PlanV::Empty) == none);
            let head = seq![(alias, left_connection, right_connection)];
            assert(rel_connections(p) == head + rel_connections(*left) + rel_connections(
                *center,
            ) + rel_connections(*right));
            let q = dedup(p, seen).0.plan();
            if s2.contains(left_connection) {
                assert(q == p.with_children(PlanV::Empty, center_tf.plan(), right_tf.plan()));
                assert(rel_connections(q) == head + none + rel_connections(center_tf.plan())
                    + rel_connections(right_tf.plan()));
            } else {
                lemma_dedup_simple(*left, s2);
                if right_tf is Yes {
                    assert(q == p.with_children(*left, *center, right_tf.plan()));
                    assert(rel_connections(q) == head + rel_connections(*left)
                        + rel_connections(*center) + rel_connections(right_tf.plan()));
                } else {
                    assert(q == p);
                }
            }
        },
        _ => {
            lemma_dedup_keeps_relationships(p.input(), seen);
            let tf = dedup(p.input(), seen).0;
            if tf is Yes && p is Cte && tf.plan() is Empty {
                assert(rel_connections(PlanV::Empty) == rel_connections(p.input()));
            }
        },
    }
}

/// Where nothing is missing for a pattern, traversal planning and join
/// inference know it: the errors of a pattern are those of `pattern_miss`.
pub proof fn lemma_pattern_found(
    ctx: PlanCtxV,
    schema: GraphSchemaV,
    left: Text,
    rel: Text,
    right: Text,
)
    ensures
        graph_context(ctx, schema, left, rel, right) is Err <==> pattern_miss(
            Pass::GraphTraversalPlanning,
            ctx,
            schema,
            left,
            rel,
            right,
            false,
        ) is Some,
        join_context(ctx, schema, left, rel, right) is Err <==> pattern_miss(
            Pass::GraphJoinInference,
            ctx,
            schema,
            left,
            rel,
            right,
            true,
        ) is Some,
{
}

/// `true` for a plan as the builder makes it, over a context that holds
/// its aliases: every relationship stands on the right child of the one
/// above it, its alias and both connections are aliases of the context,
/// its left child is the graph node of its left connection, and every
/// scan is the scan of its alias with no table yet.
pub open spec fn is_connected(p: PlanV, ctx: PlanCtxV) -> bool
    decreases p,
{
    match p {
        PlanV::Empty => true,
        PlanV::Scan { .. } => false,
        PlanV::Union { .. } => false,
        PlanV::GraphNode { input, alias, .. } => ctx.contains(alias) && *input == scan_plan(alias),
        PlanV::GraphRel { left, center, right, alias, left_connection, right_connection, .. } => {
            &&& ctx.contains(left_connection)
            &&& ctx.contains(alias)
            &&& ctx.contains(right_connection)
            &&& *left == node_plan(left_connection, Some(alias))
            &&& *center == scan_plan(alias)
            &&& is_connected(*right, ctx)
        },
        _ => is_connected(p.input(), ctx),
    }
}

/// `true` when the second context holds every alias of the first.
pub open spec fn extends(a: PlanCtxV, b: PlanCtxV) -> bool {
    forall|x: Text| #[trigger] a.contains(x) ==> b.contains(x)
}

proof fn lemma_with_extends(ctx: PlanCtxV, alias: Text, t: TableCtxV)
    ensures
        extends(ctx, ctx.with(alias, t)),
        ctx.with(alias, t).contains(alias),
{
    crate::assoc::lemma_put(ctx.entries, alias, t);
    assert forall|x: Text| #[trigger] ctx.contains(x) implies ctx.with(alias, t).contains(x) by {
        if x != alias {
            assert(crate::assoc::has_key(crate::assoc::put(ctx.entries, alias, t), x)
                == crate::assoc::has_key(ctx.entries, x));
        }
    }
}

proof fn lemma_merged_extends(
    ctx: PlanCtxV,
    alias: Text,
    label: Option<Text>,
    properties: Seq<PropertyV>,
)
    ensures
        extends(ctx, merged(ctx, alias, label, properties)),
{
    if let Some(t) = ctx.get(alias) {
        lemma_with_extends(ctx, alias, merged_ctx(t, label, properties));
    }
}

proof fn lemma_extends_chain(a: PlanCtxV, b: PlanCtxV, c: PlanCtxV)
    requires
        extends(a, b),
        extends(b, c),
    ensures
        extends(a, c),
{
    assert forall|x: Text| #[trigger] a.contains(x) implies c.contains(x) by {
        assert(b.contains(x));
    }
}

proof fn lemma_connected_carries(p: PlanV, a: PlanCtxV, b: PlanCtxV)
    requires
        is_connected(p, a),
        extends(a, b),
    ensures
        is_connected(p, b),
    decreases p,
{
    match p {
        PlanV::Empty => {},
        PlanV::Scan { .. } => {},
        PlanV::Union { .. } => {},
        PlanV::GraphNode { alias, .. } => {
            assert(a.contains(alias));
        },
        PlanV::GraphRel { right, alias, left_connection, right_connection, .. } => {
            assert(a.contains(alias));
            assert(a.contains(left_connection));
            assert(a.contains(right_connection));
            lemma_connected_carries(*right, a, b);
        },
        _ => {
            lemma_connected_carries(p.input(), a, b);
        },
    }
}

proof fn lemma_connect_keeps_connected(
    cp: ConnectedPatternV,
    plan: PlanV,
    ctx: PlanCtxV,
    first_path: bool,
    start_id: Text,
    rel_id: Text,
    end_id: Text,
)
    requires
        is_connected(plan, ctx),
    ensures
        connect(cp, plan, ctx, first_path, start_id, rel_id, end_id) matches Ok((p, c))
            ==> is_connected(p, c) && extends(ctx, c),
{
    if connect(cp, plan, ctx, first_path, start_id, rel_id, end_id) is Ok {
        let (p, c) = connect(cp, plan, ctx, first_path, start_id, rel_id, end_id)->Ok_0;
        let s = alias_or(cp.start_node.name, start_id);
        let r = alias_or(cp.relationship.name, rel_id);
        let e = alias_or(cp.end_node.name, end_id);
        let start_ctx = fresh_ctx(
            cp.start_node.label,
            cp.start_node.properties,
            false,
            cp.start_node.name is Some,
        );
        let end_ctx = fresh_ctx(
            cp.end_node.label,
            cp.end_node.properties,
            false,
            cp.end_node.name is Some,
        );
        let rel_ctx = fresh_ctx(
            cp.relationship.label,
            cp.relationship.properties,
            true,
            cp.relationship.name is Some,
        );
        let direction = cp.relationship.direction;
        if ctx.contains(s) {
            let c1 = merged(ctx, s, cp.start_node.label, cp.start_node.properties);
            let c2 = c1.with(e, end_ctx);
            assert(c == c2.with(r, rel_ctx));
            assert(p == rel_plan(node_plan(e, Some(r)), plan, r, direction, e, s));
            lemma_merged_extends(ctx, s, cp.start_node.label, cp.start_node.properties);
            lemma_with_extends(c1, e, end_ctx);
            lemma_with_extends(c2, r, rel_ctx);
            lemma_extends_chain(ctx, c1, c2);
            lemma_extends_chain(ctx, c2, c);
            lemma_extends_chain(c1, c2, c);
            assert(c1.contains(s));
            assert(c2.contains(s));
            assert(c2.contains(e));
            assert(c.contains(s) && c.contains(e) && c.contains(r));
            lemma_connected_carries(plan, ctx, c);
        } else if ctx.contains(e) {
            let c1 = merged(ctx, e, cp.end_node.label, cp.end_node.properties);
            let c2 = c1.with(s, start_ctx);
            assert(c == c2.with(r, rel_ctx));
            assert(p == rel_plan(node_plan(s, Some(r)), plan, r, direction, s, e));
            lemma_merged_extends(ctx, e, cp.end_node.label, cp.end_node.properties);
            lemma_with_extends(c1, s, start_ctx);
            lemma_with_extends(c2, r, rel_ctx);
            lemma_extends_chain(ctx, c1, c2);
            lemma_extends_chain(ctx, c2, c);
            lemma_extends_chain(c1, c2, c);
            assert(c1.contains(e));
            assert(c2.contains(e));
            assert(c2.contains(s));
            assert(c.contains(s) && c.contains(e) && c.contains(r));
            lemma_connected_carries(plan, ctx, c);
        } else {
            let c1 = ctx.with(s, start_ctx);
            let c2 = c1.with(e, end_ctx);
            assert(c == c2.with(r, rel_ctx));
            assert(p == rel_plan(node_plan(e, Some(r)), node_plan(s, None), r, direction, e, s));
            lemma_with_extends(ctx, s, start_ctx);
            lemma_with_extends(c1, e, end_ctx);
            lemma_with_extends(c2, r, rel_ctx);
            lemma_extends_chain(ctx, c1, c2);
            lemma_extends_chain(ctx, c2, c);
            lemma_extends_chain(c1, c2, c);
            assert(c1.contains(s));
            assert(c2.contains(e));
            assert(c2.contains(s));
            assert(c.contains(s) && c.contains(e) && c.contains(r));
            assert(is_connected(node_plan(s, None), c));
        }
    }
}

proof fn lemma_connect_all_keeps_connected(
    cps: Seq<ConnectedPatternV>,
    plan: PlanV,
    ctx: PlanCtxV,
    first_path: bool,
    ids: Seq<Text>,
    next: int,
)
    requires
        is_connected(plan, ctx),
    ensures
        connect_all(cps, plan, ctx, first_path, ids, next) matches Ok((p, c)) ==> is_connected(
            p,
            c,
        ) && extends(ctx, c),
    decreases cps.len(),
{
    if cps.len() > 0 && connect_all(cps, plan, ctx, first_path, ids, next) is Ok {
        lemma_connect_all_keeps_connected(cps.drop_last(), plan, ctx, first_path, ids, next);
        let (p, c) = connect_all(cps.drop_last(), plan, ctx, first_path, ids, next)->Ok_0;
        let at = next + 3 * (cps.len() - 1);
        lemma_connect_keeps_connected(
            cps.last(),
            p,
            c,
            first_path,
            ids[at],
            ids[at + 1],
            ids[at + 2],
        );
        let c2 = connect_all(cps, plan, ctx, first_path, ids, next)->Ok_0.1;
        lemma_extends_chain(ctx, c, c2);
    }
}

proof fn lemma_match_patterns_keep_connected(
    s: Seq<PathPatternV>,
    plan: PlanV,
    ctx: PlanCtxV,
    ids: Seq<Text>,
)
    requires
        is_connected(plan, ctx),
    ensures
        match_patterns(s, plan, ctx, ids) matches Ok((p, c)) ==> is_connected(p, c),
    decreases s.len(),
{
    if s.len() > 0 && match_patterns(s, plan, ctx, ids) is Ok {
        lemma_match_patterns_keep_connected(s.drop_last(), plan, ctx, ids);
        let (p, c) = match_patterns(s.drop_last(), plan, ctx, ids)->Ok_0;
        match s.last() {
            PathPatternV::Node(n) => {
                let alias = n.name->Some_0;
                if c.contains(alias) {
                    lemma_merged_extends(c, alias, n.label, n.properties);
                    lemma_connected_carries(p, c, merged(c, alias, n.label, n.properties));
                } else {
                    lemma_with_extends(c, alias, fresh_ctx(n.label, n.properties, false, true));
                }
            },
            PathPatternV::ConnectedPattern(cps) => {
                lemma_connect_all_keeps_connected(
                    cps,
                    p,
                    c,
                    s.len() == 1,
                    ids,
                    patterns_ids(s.drop_last()) as int,
                );
            },
        }
    }
}

proof fn lemma_properties_converted_extends(ctx: PlanCtxV)
    ensures
        extends(ctx, properties_converted(ctx)),
{
    let after = properties_converted(ctx);
    assert forall|x: Text| #[trigger] ctx.contains(x) implies after.contains(x) by {
        let k = choose|k: int| 0 <= k < ctx.entries.len() && ctx.entries[k].0 == x;
        assert(after.entries[k].0 == x);
    }
}

/// In the plan that the builder makes of a `MATCH` clause, every
/// relationship has its alias and both its connections in the context,
/// its left child is the graph node of its left connection, and no scan
/// has a table yet.
pub proof fn lemma_built_plan_is_connected(
    patterns: Seq<PathPatternV>,
    plan: PlanV,
    ctx: PlanCtxV,
    ids: Seq<Text>,
)
    requires
        is_connected(plan, ctx),
    ensures
        match_clause_plan(patterns, plan, ctx, ids) matches Ok((p, c)) ==> is_connected(p, c),
{
    if match_clause_plan(patterns, plan, ctx, ids) is Ok {
        lemma_match_patterns_keep_connected(patterns, plan, ctx, ids);
        let (p, c) = match_patterns(patterns, plan, ctx, ids)->Ok_0;
        lemma_properties_converted_extends(c);
        lemma_connected_carries(p, c, properties_converted(c));
    }
}

proof fn lemma_wrapped_is_connected(ast: OpenCypherQueryAst, p: PlanV, ctx: PlanCtxV)
    requires
        is_connected(p, ctx),
    ensures
        is_connected(wrapped(ast, p), ctx),
{
    let filtered = match ast.where_clause {
        Some(w) => PlanV::Filter {
            input: Box::new(p),
            predicate: crate::plan_builder::plan_expr(w.conditions@),
        },
        None => p,
    };
    assert(is_connected(filtered, ctx));
    let projected = match ast.return_clause {
        Some(r) => PlanV::Projection {
            input: Box::new(filtered),
            items: projection_items(seq_view(r.return_items@)),
        },
        None => filtered,
    };
    assert(is_connected(projected, ctx));
    let ordered = match ast.order_by_clause {
        Some(o) => PlanV::OrderBy {
            input: Box::new(projected),
            items: crate::plan_builder::order_items(seq_view(o.order_by_items@)),
        },
        None => projected,
    };
    assert(is_connected(ordered, ctx));
    let skipped = match ast.skip_clause {
        Some(s) => PlanV::Skip { input: Box::new(ordered), count: s.skip_item },
        None => ordered,
    };
    assert(is_connected(skipped, ctx));
    let limited = match ast.limit_clause {
        Some(l) => PlanV::Limit { input: Box::new(skipped), count: l.limit_item },
        None => skipped,
    };
    assert(is_connected(limited, ctx));
    assert(wrapped(ast, p) == limited);
}

/// The same of the plan of a whole query, under the clauses that follow
/// its `MATCH`.
pub proof fn lemma_query_plan_is_connected(ast: OpenCypherQueryAst, ids: Seq<Text>)
    ensures
        built_plan(ast, ids) matches Ok((p, c)) ==> is_connected(p, c),
{
    if built_plan(ast, ids) is Ok {
        if let Some(m) = ast.match_clause {
            lemma_built_plan_is_connected(
                seq_view(m.path_patterns@),
                PlanV::Empty,
                PlanCtxV::empty(),
                ids,
            );
            let (p, c) = match_clause_plan(
                seq_view(m.path_patterns@),
                PlanV::Empty,
                PlanCtxV::empty(),
                ids,
            )->Ok_0;
            lemma_wrapped_is_connected(ast, p, c);
        } else {
            lemma_wrapped_is_connected(ast, PlanV::Empty, PlanCtxV::empty());
        }
    }
}

/// `true` when the context holds the alias, with a label.
pub open spec fn resolved(ctx: PlanCtxV, alias: Text) -> bool {
    ctx.contains(alias) && ctx.get(alias) is Some && ctx.get(alias)->Some_0.label is Some
}

/// `true` when the context holds, each with a label, the alias and both
/// connections of every relationship that join inference works on.
pub open spec fn rels_resolved(p: PlanV, ctx: PlanCtxV) -> bool
    decreases p,
{
    match p {
        PlanV::Empty => true,
        PlanV::Scan { .. } => true,
        PlanV::GraphRel { right, alias, left_connection, right_connection, .. } => {
            &&& resolved(ctx, left_connection)
            &&& resolved(ctx, alias)
            &&& resolved(ctx, right_connection)
            &&& rels_resolved(*right, ctx)
        },
        PlanV::Union { inputs } => all_rels_resolved(inputs, ctx),
        _ => rels_resolved(p.input(), ctx),
    }
}

pub open spec fn all_rels_resolved(s: Seq<PlanV>, ctx: PlanCtxV) -> bool
    decreases s,
{
    if s.len() == 0 {
        true
    } else {
        all_rels_resolved(s.drop_last(), ctx) && rels_resolved(s.last(), ctx)
    }
}

/// `true` when the context holds the alias of every join.
pub open spec fn joins_known(joins: Seq<JoinV>, ctx: PlanCtxV) -> bool {
    forall|i: int| 0 <= i < joins.len() ==> ctx.contains(#[trigger] joins[i].table_alias)
}

proof fn lemma_joins_known_concat(a: Seq<JoinV>, b: Seq<JoinV>, ctx: PlanCtxV)
    requires
        joins_known(a, ctx),
        joins_known(b, ctx),
    ensures
        joins_known(a + b, ctx),
{
    assert forall|i: int| 0 <= i < (a + b).len() implies ctx.contains(
        #[trigger] (a + b)[i].table_alias,
    ) by {
        if i < a.len() {
            assert((a + b)[i] == a[i]);
        } else {
            assert((a + b)[i] == b[i - a.len()]);
        }
    }
}

/// Where join inference succeeds, the alias and both connections of every
/// relationship that it works on resolve to entries of the context that
/// have a label, and the alias of every join that it makes is an alias of
/// the context.
pub proof fn lemma_collected_rels_resolve(
    p: PlanV,
    ctx: PlanCtxV,
    schema: GraphSchemaV,
    joined_before: Set<Text>,
)
    ensures
        collect_joins(p, ctx, schema, joined_before) matches Ok((joins, _)) ==> rels_resolved(
            p,
            ctx,
        ) && joins_known(joins, ctx),
    decreases p,
{
    match p {
        PlanV::Empty => {},
        PlanV::Scan { .. } => {},
        PlanV::GraphRel { left, right, alias, direction, left_connection, right_connection, .. } => {
            if collect_joins(p, ctx, schema, joined_before) is Ok {
                let g = join_context(ctx, schema, left_connection, alias, right_connection)->Ok_0;
                let (own, s1) = rel_joins(g, direction, *left is Empty, joined_before);
                lemma_collected_rels_resolve(*right, ctx, schema, s1);
                let below = collect_joins(*right, ctx, schema, s1)->Ok_0.0;
                assert(joins_known(own, ctx));
                lemma_joins_known_concat(own, below, ctx);
            }
        },
        PlanV::Union { inputs } => {
            lemma_collected_rels_resolve_all(inputs, ctx, schema, joined_before);
        },
        _ => {
            lemma_collected_rels_resolve(p.input(), ctx, schema, joined_before);
        },
    }
}

pub proof fn lemma_collected_rels_resolve_all(
    s: Seq<PlanV>,
    ctx: PlanCtxV,
    schema: GraphSchemaV,
    joined_before: Set<Text>,
)
    ensures
        collect_joins_all(s, ctx, schema, joined_before) matches Ok((joins, _))
            ==> all_rels_resolved(s, ctx) && joins_known(joins, ctx),
    decreases s,
{
    if s.len() > 0 {
        lemma_collected_rels_resolve_all(s.drop_last(), ctx, schema, joined_before);
        if collect_joins_all(s, ctx, schema, joined_before) is Ok {
            let (joins, s1) = collect_joins_all(s.drop_last(), ctx, schema, joined_before)->Ok_0;
            lemma_collected_rels_resolve(s.last(), ctx, schema, s1);
            let more = collect_joins(s.last(), ctx, schema, s1)->Ok_0.0;
            lemma_joins_known_concat(joins, more, ctx);
        }
    }
}

/// Wrapping the projections in the joins keeps the relationships of the plan.
pub proof fn lemma_wrap_keeps_rels(p: PlanV, joins: Seq<JoinV>, ctx: PlanCtxV)
    requires
        rels_resolved(p, ctx),
    ensures
        rels_resolved(wrap_projections(p, joins).plan(), ctx),
    decreases p,
{
    match p {
        PlanV::Empty => {},
        PlanV::Scan { .. } => {},
        PlanV::Projection { .. } => {
            let q = wrap_projections(p, joins).plan();
            assert(q.input() == p);
        },
        PlanV::GraphRel { left, center, right, .. } => {
            lemma_wrap_keeps_rels(*right, joins, ctx);
        },
        PlanV::Union { inputs } => {
            lemma_wrap_keeps_rels_all(inputs, joins, ctx);
        },
        _ => {
            lemma_wrap_keeps_rels(p.input(), joins, ctx);
            let tf = wrap_projections(p.input(), joins);
            if tf is Yes {
                let q = p.with_input(tf.plan());
                if p is Cte && tf.plan() is Empty {
                } else {
                    assert(q.input() == tf.plan());
                }
            }
        },
    }
}

pub proof fn lemma_wrap_keeps_rels_all(s: Seq<PlanV>, joins: Seq<JoinV>, ctx: PlanCtxV)
    requires
        all_rels_resolved(s, ctx),
    ensures
        wrap_projections_all(s, joins).len() == s.len(),
        all_rels_resolved(
            Seq::new(s.len(), |i: int| wrap_projections_all(s, joins)[i].plan()),
            ctx,
        ),
    decreases s,
{
    if s.len() > 0 {
        let init = s.drop_last();
        lemma_wrap_keeps_rels_all(init, joins, ctx);
        lemma_wrap_keeps_rels(s.last(), joins, ctx);
        let all = wrap_projections_all(s, joins);
        let before = wrap_projections_all(init, joins);
        assert(all == before.push(wrap_projections(s.last(), joins)));
        let plans = Seq::new(s.len(), |i: int| all[i].plan());
        let plans_before = Seq::new(init.len(), |i: int| before[i].plan());
        assert(plans.drop_last() =~= plans_before);
        assert(plans.last() == wrap_projections(s.last(), joins).plan());
    } else {
        assert(Seq::new(s.len(), |i: int| wrap_projections_all(s, joins)[i].plan())
            =~= Seq::<PlanV>::empty());
    }
}

/// For every relationship of the final plan that join inference worked
/// on, the alias and both connections resolve to entries of the context
/// that have a label.
pub proof fn lemma_final_rels_resolve(p: PlanV, ctx: PlanCtxV, schema: GraphSchemaV)
    ensures
        join_inference(p, ctx, schema) matches Ok(tf) ==> rels_resolved(tf.plan(), ctx),
{
    lemma_collected_rels_resolve(p, ctx, schema, Set::empty());
    if join_inference(p, ctx, schema) is Ok {
        let joins = collect_joins(p, ctx, schema, Set::empty())->Ok_0.0;
        if joins.len() > 0 {
            lemma_wrap_keeps_rels(
                p,
                crate::analyzer::graph_join_inference::sort_joins(joins),
                ctx,
            );
        }
    }
}

/// A query that returns something has as many select items as it returns
/// expressions, whatever its other clauses.
pub proof fn lemma_return_gives_select(ast: OpenCypherQueryAst, p: PlanV)
    ensures
        ast.return_clause matches Some(r) ==> select_items(wrapped(ast, p)).len()
            == r.return_items@.len(),
{
    if let Some(r) = ast.return_clause {
        let filtered = match ast.where_clause {
            Some(w) => PlanV::Filter {
                input: Box::new(p),
                predicate: crate::plan_builder::plan_expr(w.conditions@),
            },
            None => p,
        };
        let projected = PlanV::Projection {
            input: Box::new(filtered),
            items: projection_items(seq_view(r.return_items@)),
        };
        assert(select_items(projected).len() == r.return_items@.len());
        let ordered = match ast.order_by_clause {
            Some(o) => PlanV::OrderBy {
                input: Box::new(projected),
                items: crate::plan_builder::order_items(seq_view(o.order_by_items@)),
            },
            None => projected,
        };
        assert(select_items(ordered) == select_items(projected));
        let skipped = match ast.skip_clause {
            Some(s) => PlanV::Skip { input: Box::new(ordered), count: s.skip_item },
            None => ordered,
        };
        assert(select_items(skipped) == select_items(ordered));
        let limited = match ast.limit_clause {
            Some(l) => PlanV::Limit { input: Box::new(skipped), count: l.limit_item },
            None => skipped,
        };
        assert(select_items(limited) == select_items(skipped));
    }
}

/// `true` when the context holds every alias that the expression names,
/// by itself or in the operands of an operator or the arguments of a call.
pub open spec fn names_known(e: ExprV, ctx: PlanCtxV) -> bool
    decreases e,
{
    match e {
        ExprV::TableAlias(a) => ctx.contains(a),
        ExprV::PropertyAccess(pa) => ctx.contains(pa.table_alias),
        ExprV::OperatorApplication(op) => all_names_known(op.operands, ctx),
        ExprV::ScalarFnCall(f) => all_names_known(f.args, ctx),
        ExprV::AggregateFnCall(f) => all_names_known(f.args, ctx),
        _ => true,
    }
}

pub open spec fn all_names_known(s: Seq<ExprV>, ctx: PlanCtxV) -> bool
    decreases s,
{
    if s.len() == 0 {
        true
    } else {
        all_names_known(s.drop_last(), ctx) && names_known(s.last(), ctx)
    }
}

/// `true` when two contexts hold the same aliases.
pub open spec fn same_aliases(a: PlanCtxV, b: PlanCtxV) -> bool {
    forall|x: Text| #[trigger] a.contains(x) == b.contains(x)
}

/// `true` when the context holds every alias that the select items name.
pub open spec fn select_known(items: Seq<SelectItemV>, ctx: PlanCtxV) -> bool {
    forall|i: int| 0 <= i < items.len() ==> names_known((#[trigger] items[i]).expression, ctx)
}

proof fn lemma_with_keeps_aliases(ctx: PlanCtxV, alias: Text, t: TableCtxV)
    requires
        ctx.contains(alias),
    ensures
        same_aliases(ctx, ctx.with(alias, t)),
{
    crate::assoc::lemma_put(ctx.entries, alias, t);
    assert forall|x: Text| #[trigger] ctx.contains(x) == ctx.with(alias, t).contains(x) by {
        if x != alias {
            assert(crate::assoc::has_key(crate::assoc::put(ctx.entries, alias, t), x)
                == crate::assoc::has_key(ctx.entries, x));
        }
    }
}

proof fn lemma_names_known_carry(e: ExprV, a: PlanCtxV, b: PlanCtxV)
    requires
        same_aliases(a, b),
        names_known(e, a),
    ensures
        names_known(e, b),
    decreases e,
{
    match e {
        ExprV::TableAlias(x) => {
            assert(a.contains(x));
        },
        ExprV::PropertyAccess(pa) => {
            assert(a.contains(pa.table_alias));
        },
        ExprV::OperatorApplication(op) => {
            lemma_all_names_known_carry(op.operands, a, b);
        },
        ExprV::ScalarFnCall(f) => {
            lemma_all_names_known_carry(f.args, a, b);
        },
        ExprV::AggregateFnCall(f) => {
            lemma_all_names_known_carry(f.args, a, b);
        },
        _ => {},
    }
}

proof fn lemma_all_names_known_carry(s: Seq<ExprV>, a: PlanCtxV, b: PlanCtxV)
    requires
        same_aliases(a, b),
        all_names_known(s, a),
    ensures
        all_names_known(s, b),
    decreases s,
{
    if s.len() > 0 {
        lemma_all_names_known_carry(s.drop_last(), a, b);
        lemma_names_known_carry(s.last(), a, b);
    }
}

proof fn lemma_select_known_carry(items: Seq<SelectItemV>, a: PlanCtxV, b: PlanCtxV)
    requires
        same_aliases(a, b),
        select_known(items, a),
    ensures
        select_known(items, b),
{
    assert forall|i: int| 0 <= i < items.len() implies names_known(
        (#[trigger] items[i]).expression,
        b,
    ) by {
        lemma_names_known_carry(items[i].expression, a, b);
    }
}

proof fn lemma_same_aliases_chain(a: PlanCtxV, b: PlanCtxV, c: PlanCtxV)
    requires
        same_aliases(a, b),
        same_aliases(b, c),
    ensures
        same_aliases(a, c),
{
    assert forall|x: Text| #[trigger] a.contains(x) == c.contains(x) by {
        assert(a.contains(x) == b.contains(x));
        assert(b.contains(x) == c.contains(x));
    }
}

proof fn lemma_tag_expr_known(e: ExprV, col_alias: Option<Text>, ctx: PlanCtxV)
    ensures
        tag_expr(e, col_alias, ctx) matches Ok((tagged, c)) ==> same_aliases(ctx, c)
            && names_known(e, c) && names_known(tagged, c),
    decreases e,
{
    if tag_expr(e, col_alias, ctx) is Ok {
        let c = tag_expr(e, col_alias, ctx)->Ok_0.1;
        match e {
            ExprV::TableAlias(a) => {
                let t = ctx.get(a)->Some_0;
                assert(ctx.contains(a));
                lemma_with_keeps_aliases(
                    ctx,
                    a,
                    TableCtxV {
                        projection_items: seq![star_item()],
                        use_edge_list: t.use_edge_list || t.is_rel,
                        ..t
                    },
                );
            },
            ExprV::PropertyAccess(pa) => {
                let t = ctx.get(pa.table_alias)->Some_0;
                assert(ctx.contains(pa.table_alias));
                lemma_with_keeps_aliases(
                    ctx,
                    pa.table_alias,
                    TableCtxV {
                        projection_items: t.projection_items.push(
                            ProjectionItemV { expression: e, col_alias },
                        ),
                        ..t
                    },
                );
            },
            ExprV::OperatorApplication(op) => {
                lemma_tag_nested_known(op.operands, ctx);
            },
            ExprV::ScalarFnCall(f) => {
                lemma_tag_nested_known(f.args, ctx);
            },
            ExprV::AggregateFnCall(f) => {
                lemma_tag_nested_known(f.args, ctx);
            },
            _ => {},
        }
    }
}

proof fn lemma_tag_nested_known(s: Seq<ExprV>, ctx: PlanCtxV)
    ensures
        tag_nested(s, ctx) matches Ok(c) ==> same_aliases(ctx, c) && all_names_known(s, c),
    decreases s,
{
    if s.len() > 0 && tag_nested(s, ctx) is Ok {
        let c1 = tag_nested(s.drop_last(), ctx)->Ok_0;
        let c2 = tag_nested(s, ctx)->Ok_0;
        lemma_tag_nested_known(s.drop_last(), ctx);
        lemma_tag_expr_known(s.last(), None, c1);
        lemma_all_names_known_carry(s.drop_last(), c1, c2);
        lemma_same_aliases_chain(ctx, c1, c2);
    }
}

proof fn lemma_tag_items_known(items: Seq<ProjectionItemV>, ctx: PlanCtxV)
    ensures
        tag_items(items, ctx) matches Ok((tagged, c)) ==> same_aliases(ctx, c)
            && tagged.len() == items.len() && select_known(select_items_of(tagged), c),
    decreases items.len(),
{
    if items.len() > 0 && tag_items(items, ctx) is Ok {
        let (done, c1) = tag_items(items.drop_last(), ctx)->Ok_0;
        let (tagged, c2) = tag_items(items, ctx)->Ok_0;
        lemma_tag_items_known(items.drop_last(), ctx);
        lemma_tag_expr_known(items.last().expression, items.last().col_alias, c1);
        lemma_select_known_carry(select_items_of(done), c1, c2);
        lemma_same_aliases_chain(ctx, c1, c2);
        assert forall|i: int| 0 <= i < select_items_of(tagged).len() implies names_known(
            (#[trigger] select_items_of(tagged)[i]).expression,
            c2,
        ) by {
            if i < done.len() {
                assert(select_items_of(tagged)[i] == select_items_of(done)[i]);
            }
        }
    }
}

/// Where projection tagging succeeds, the context holds the aliases that
/// it held before, and every alias that the select list of the tagged
/// plan names.
pub proof fn lemma_selected_aliases_known(p: PlanV, ctx: PlanCtxV)
    ensures
        projection_tagging(p, ctx) matches Ok((tf, c)) ==> same_aliases(ctx, c) && select_known(
            select_items(tf.plan()),
            c,
        ),
    decreases p,
{
    if projection_tagging(p, ctx) is Ok {
        let (tf, c) = projection_tagging(p, ctx)->Ok_0;
        match p {
            PlanV::Empty => {},
            PlanV::Scan { .. } => {},
            PlanV::Projection { input, items } => {
                let chosen = if has_star(items) {
                    explicit_alias_items(ctx.entries)
                } else {
                    items
                };
                lemma_tag_items_known(chosen, ctx);
            },
            PlanV::GraphRel { left, center, right, .. } => {
                let (left_tf, c1) = projection_tagging(*left, ctx)->Ok_0;
                let (center_tf, c2) = projection_tagging(*center, c1)->Ok_0;
                let (right_tf, c3) = projection_tagging(*right, c2)->Ok_0;
                lemma_selected_aliases_known(*left, ctx);
                lemma_selected_aliases_known(*center, c1);
                lemma_selected_aliases_known(*right, c2);
                lemma_same_aliases_chain(ctx, c1, c2);
                lemma_same_aliases_chain(ctx, c2, c3);
                lemma_same_aliases_chain(c1, c2, c3);
                lemma_select_known_carry(select_items(left_tf.plan()), c1, c3);
                lemma_select_known_carry(select_items(center_tf.plan()), c2, c3);
                assert(select_items(tf.plan()) == select_items(left_tf.plan()) + select_items(
                    center_tf.plan(),
                ) + select_items(right_tf.plan()));
            },
            PlanV::Union { inputs } => {
                lemma_selected_aliases_known_all(inputs, ctx);
            },
            _ => {
                lemma_selected_aliases_known(p.input(), ctx);
                let child_tf = projection_tagging(p.input(), ctx)->Ok_0.0;
                assert(select_items(tf.plan()) == select_items(child_tf.plan()) || select_items(
                    tf.plan(),
                ) == Seq::<SelectItemV>::empty());
            },
        }
    }
}

proof fn lemma_selected_aliases_known_all(s: Seq<PlanV>, ctx: PlanCtxV)
    ensures
        projection_tagging_all(s, ctx) matches Ok((_, c)) ==> same_aliases(ctx, c),
    decreases s,
{
    if s.len() > 0 && projection_tagging_all(s, ctx) is Ok {
        let c1 = projection_tagging_all(s.drop_last(), ctx)->Ok_0.1;
        let c2 = projection_tagging_all(s, ctx)->Ok_0.1;
        lemma_selected_aliases_known_all(s.drop_last(), ctx);
        lemma_selected_aliases_known(s.last(), c1);
        lemma_same_aliases_chain(ctx, c1, c2);
    }
}

proof fn lemma_tag_projections_keeps_aliases(pas: Seq<PropertyAccessV>, ctx: PlanCtxV)
    ensures
        tag_projections(pas, ctx) matches Ok(c) ==> same_aliases(ctx, c),
    decreases pas.len(),
{
    if pas.len() > 0 && tag_projections(pas, ctx) is Ok {
        let c1 = tag_projections(pas.drop_last(), ctx)->Ok_0;
        let c2 = tag_projections(pas, ctx)->Ok_0;
        let alias = pas.last().table_alias;
        lemma_tag_projections_keeps_aliases(pas.drop_last(), ctx);
        assert(c1.contains(alias));
        lemma_with_keeps_aliases(c1, alias, with_projection(c1.get(alias)->Some_0, pas.last()));
        lemma_same_aliases_chain(ctx, c1, c2);
    }
}

proof fn lemma_tag_conjunct_keeps_aliases(e: ExprV, ctx: PlanCtxV)
    ensures
        tag_conjunct(e, ctx) matches Ok((_, c)) ==> same_aliases(ctx, c),
    decreases e,
{
    if tag_conjunct(e, ctx) is Ok {
        match e {
            ExprV::OperatorApplication(op) => {
                if op.operator == Operator::And {
                    lemma_tag_conjuncts_keep_aliases(op.operands, ctx);
                } else {
                    lemma_tag_leaf_keeps_aliases(e, ctx);
                }
            },
            _ => {
                lemma_tag_leaf_keeps_aliases(e, ctx);
            },
        }
    }
}

proof fn lemma_tag_leaf_keeps_aliases(e: ExprV, ctx: PlanCtxV)
    ensures
        tag_leaf(e, ctx) matches Ok((_, c)) ==> same_aliases(ctx, c),
{
    if tag_leaf(e, ctx) is Ok {
        let pas = prop_accesses(e);
        let c = tag_leaf(e, ctx)->Ok_0.1;
        if c != ctx {
            if one_alias(pas) {
                let alias = pas[0].table_alias;
                assert(ctx.contains(alias));
                lemma_with_keeps_aliases(
                    ctx,
                    alias,
                    with_filter(ctx.get(alias)->Some_0, to_columns(e)),
                );
            } else {
                lemma_tag_projections_keeps_aliases(pas, ctx);
            }
        }
    }
}

proof fn lemma_tag_conjuncts_keep_aliases(s: Seq<ExprV>, ctx: PlanCtxV)
    ensures
        tag_conjuncts(s, ctx) matches Ok((_, c)) ==> same_aliases(ctx, c),
    decreases s,
{
    if s.len() > 0 && tag_conjuncts(s, ctx) is Ok {
        let c1 = tag_conjuncts(s.drop_last(), ctx)->Ok_0.1;
        let c2 = tag_conjuncts(s, ctx)->Ok_0.1;
        lemma_tag_conjuncts_keep_aliases(s.drop_last(), ctx);
        lemma_tag_conjunct_keeps_aliases(s.last(), c1);
        lemma_same_aliases_chain(ctx, c1, c2);
    }
}

/// Filter tagging writes to the contexts of aliases that the context
/// holds: where it succeeds, the context holds the aliases that it held
/// before, and no others.
pub proof fn lemma_filter_tagging_keeps_aliases(p: PlanV, ctx: PlanCtxV)
    ensures
        filter_tagging(p, ctx) matches Ok((_, c)) ==> same_aliases(ctx, c),
    decreases p,
{
    if filter_tagging(p, ctx) is Ok {
        match p {
            PlanV::Empty => {},
            PlanV::Scan { .. } => {},
            PlanV::Filter { input, predicate } => {
                let c1 = filter_tagging(*input, ctx)->Ok_0.1;
                let c2 = filter_tagging(p, ctx)->Ok_0.1;
                lemma_filter_tagging_keeps_aliases(*input, ctx);
                lemma_tag_conjunct_keeps_aliases(predicate, c1);
                lemma_same_aliases_chain(ctx, c1, c2);
            },
            PlanV::GraphRel { left, center, right, .. } => {
                let c1 = filter_tagging(*left, ctx)->Ok_0.1;
                let c2 = filter_tagging(*center, c1)->Ok_0.1;
                let c3 = filter_tagging(*right, c2)->Ok_0.1;
                lemma_filter_tagging_keeps_aliases(*left, ctx);
                lemma_filter_tagging_keeps_aliases(*center, c1);
                lemma_filter_tagging_keeps_aliases(*right, c2);
                lemma_same_aliases_chain(ctx, c1, c2);
                lemma_same_aliases_chain(ctx, c2, c3);
            },
            PlanV::Union { inputs } => {
                lemma_filter_tagging_all_keeps_aliases(inputs, ctx);
            },
            _ => {
                lemma_filter_tagging_keeps_aliases(p.input(), ctx);
            },
        }
    }
}

proof fn lemma_filter_tagging_all_keeps_aliases(s: Seq<PlanV>, ctx: PlanCtxV)
    ensures
        filter_tagging_all(s, ctx) matches Ok((_, c)) ==> same_aliases(ctx, c),
    decreases s,
{
    if s.len() > 0 && filter_tagging_all(s, ctx) is Ok {
        let c1 = filter_tagging_all(s.drop_last(), ctx)->Ok_0.1;
        let c2 = filter_tagging_all(s, ctx)->Ok_0.1;
        lemma_filter_tagging_all_keeps_aliases(s.drop_last(), ctx);
        lemma_filter_tagging_keeps_aliases(s.last(), c1);
        lemma_same_aliases_chain(ctx, c1, c2);
    }
}

/// The outer `SELECT` of a render plan has at least one item: a plan
/// without select items has no render plan.
pub proof fn lemma_render_plan_has_select(p: PlanV)
    ensures
        render_plan(p) matches Ok(rp) ==> rp.select.len() >= 1 && rp.select == select_items(p),
{
}

/// `true` when the expression holds an `IN` subquery, by itself or in
/// the operands of an operator, the items of a list or the arguments of a
/// call.
pub open spec fn has_subquery(e: ExprV) -> bool
    decreases e,
{
    match e {
        ExprV::InSubquery(_) => true,
        ExprV::OperatorApplication(op) => any_subquery(op.operands),
        ExprV::List(s) => any_subquery(s),
        ExprV::ScalarFnCall(f) => any_subquery(f.args),
        ExprV::AggregateFnCall(f) => any_subquery(f.args),
        _ => false,
    }
}

pub open spec fn any_subquery(s: Seq<ExprV>) -> bool
    decreases s,
{
    if s.len() == 0 {
        false
    } else {
        any_subquery(s.drop_last()) || has_subquery(s.last())
    }
}

/// The cleanup of the anchor's filter leaves a filter without `IN`
/// subqueries as it is: `x IS NOT NULL` stays `x IS NOT NULL`.
pub proof fn lemma_clean_filters_keeps_plain(e: ExprV)
    requires
        !has_subquery(e),
    ensures
        clean_filters(e) == Some(e),
    decreases e,
{
    match e {
        ExprV::OperatorApplication(op) => {
            lemma_clean_all_keeps_plain(op.operands);
        },
        ExprV::List(s) => {
            lemma_clean_all_keeps_plain(s);
        },
        ExprV::ScalarFnCall(f) => {
            lemma_clean_all_keeps_plain(f.args);
        },
        ExprV::AggregateFnCall(f) => {
            lemma_clean_all_keeps_plain(f.args);
        },
        _ => {},
    }
}

pub proof fn lemma_clean_all_keeps_plain(s: Seq<ExprV>)
    requires
        !any_subquery(s),
    ensures
        clean_all(s) == s,
    decreases s,
{
    if s.len() > 0 {
        lemma_clean_all_keeps_plain(s.drop_last());
        lemma_clean_filters_keeps_plain(s.last());
        assert(s.drop_last().push(s.last()) =~= s);
    } else {
        assert(clean_all(s) =~= s);
    }
}

/// What is left of a filter holds no `IN` subquery.
pub proof fn lemma_clean_filters_removes_subqueries(e: ExprV)
    ensures
        clean_filters(e) matches Some(kept) ==> !has_subquery(kept),
    decreases e,
{
    match e {
        ExprV::OperatorApplication(op) => {
            lemma_clean_all_removes_subqueries(op.operands);
        },
        ExprV::List(s) => {
            lemma_clean_all_removes_subqueries(s);
        },
        ExprV::ScalarFnCall(f) => {
            lemma_clean_all_removes_subqueries(f.args);
        },
        ExprV::AggregateFnCall(f) => {
            lemma_clean_all_removes_subqueries(f.args);
        },
        _ => {},
    }
}

pub proof fn lemma_clean_all_removes_subqueries(s: Seq<ExprV>)
    ensures
        !any_subquery(clean_all(s)),
        forall|i: int| 0 <= i < clean_all(s).len() ==> !has_subquery(#[trigger] clean_all(s)[i]),
    decreases s,
{
    if s.len() > 0 {
        lemma_clean_all_removes_subqueries(s.drop_last());
        lemma_clean_filters_removes_subqueries(s.last());
        let before = clean_all(s.drop_last());
        if let Some(kept) = clean_filters(s.last()) {
            assert(before.push(kept).drop_last() =~= before);
        }
    }
}

/// The node that the outer query reads directly is told by its graph
/// node, whatever the name of its CTE: where the left child of a
/// relationship is a CTE over the graph node of an alias and has select
/// items and a table, that alias is the one, and the CTE is not in the
/// CTE list.
pub proof fn lemma_last_node_is_told_by_its_graph_node(
    rel: PlanV,
    left_input: PlanV,
    name: Text,
    alias: Text,
)
    requires
        rel is GraphRel,
        *rel->left == (PlanV::Cte { input: Box::new(left_input), name }),
        node_alias(left_input) == Some(alias),
        last_node_cte(*rel->left) is Some,
    ensures
        last_node_alias(rel) == Some(alias),
        ctes(rel, alias) == match ctes(*rel->right, alias) {
            Err(e) => Err(e),
            Ok(r) => match ctes(*rel->center, alias) {
                Err(e) => Err(e),
                Ok(c) => Ok(r + c),
            },
        },
{
    let left = *rel->left;
    assert(last_node_alias(left) == node_alias(left_input));
    assert(last_node_alias(rel) == last_node_alias(left));
    assert(ctes(left, alias) == Ok::<Seq<CteV>, RenderBuildError>(Seq::empty()));
    if ctes(*rel->right, alias) is Ok && ctes(*rel->center, alias) is Ok {
        let r = ctes(*rel->right, alias)->Ok_0;
        let c = ctes(*rel->center, alias)->Ok_0;
        assert(r + c + Seq::<CteV>::empty() =~= r + c);
    }
}

/// The names of the CTEs of a logical plan, in the order of the CTE list:
/// of a relationship the right child first, then the center, then the left.
pub open spec fn plan_cte_names(p: PlanV) -> Seq<Text>
    decreases p,
{
    match p {
        PlanV::Empty => Seq::empty(),
        PlanV::Scan { .. } => Seq::empty(),
        PlanV::Union { .. } => Seq::empty(),
        PlanV::GraphRel { left, center, right, .. } => plan_cte_names(*right) + plan_cte_names(
            *center,
        ) + plan_cte_names(*left),
        PlanV::Cte { name, .. } => seq![name],
        _ => plan_cte_names(p.input()),
    }
}

proof fn lemma_cte_names_concat(a: Seq<CteV>, b: Seq<CteV>)
    ensures
        cte_names(a + b) == cte_names(a) + cte_names(b),
{
    assert(cte_names(a + b) =~= cte_names(a) + cte_names(b));
}

/// No name occurs more often in the CTE list than among the CTEs of the
/// logical plan.
pub proof fn lemma_cte_list_from_plan(p: PlanV, last_node_alias: Text)
    ensures
        ctes(p, last_node_alias) matches Ok(list) ==> forall|x: Text|
            cte_names(list).to_multiset().count(x) <= plan_cte_names(p).to_multiset().count(x),
    decreases p,
{
    broadcast use vstd::seq_lib::group_to_multiset_ensures;

    match p {
        PlanV::Empty => {},
        PlanV::Scan { .. } => {},
        PlanV::Union { .. } => {},
        PlanV::GraphRel { left, center, right, left_connection, .. } => {
            lemma_cte_list_from_plan(*right, last_node_alias);
            lemma_cte_list_from_plan(*center, last_node_alias);
            lemma_cte_list_from_plan(*left, last_node_alias);
            if ctes(p, last_node_alias) is Ok {
                let r = ctes(*right, last_node_alias)->Ok_0;
                let c = ctes(*center, last_node_alias)->Ok_0;
                let pr = plan_cte_names(*right);
                let pc = plan_cte_names(*center);
                let pl = plan_cte_names(*left);
                vstd::seq_lib::lemma_multiset_commutative(pr, pc);
                vstd::seq_lib::lemma_multiset_commutative(pr + pc, pl);
                lemma_cte_names_concat(r, c);
                vstd::seq_lib::lemma_multiset_commutative(cte_names(r), cte_names(c));
                if left_connection != last_node_alias {
                    let l = ctes(*left, last_node_alias)->Ok_0;
                    lemma_cte_names_concat(r + c, l);
                    vstd::seq_lib::lemma_multiset_commutative(cte_names(r + c), cte_names(l));
                }
            }
        },
        PlanV::Cte { input, name } => {
            if ctes(p, last_node_alias) is Ok {
                let list = ctes(p, last_node_alias)->Ok_0;
                if node_alias(*input) == Some(last_node_alias) {
                    assert(cte_names(list) =~= Seq::<Text>::empty());
                } else {
                    assert(cte_names(list) =~= seq![name]);
                }
            }
        },
        PlanV::GraphNode { input, alias, .. } => {
            lemma_cte_list_from_plan(*input, last_node_alias);
            if alias == last_node_alias {
                assert(cte_names(Seq::<CteV>::empty()) =~= Seq::<Text>::empty());
            }
        },
        _ => {
            lemma_cte_list_from_plan(p.input(), last_node_alias);
        },
    }
}

/// Every CTE name is unique in the CTE list of a render plan, where every
/// CTE name is unique in the logical plan.
pub proof fn lemma_cte_names_unique(p: PlanV, last_node_alias: Text)
    requires
        plan_cte_names(p).no_duplicates(),
    ensures
        ctes(p, last_node_alias) matches Ok(list) ==> cte_names(list).no_duplicates(),
{
    if ctes(p, last_node_alias) is Ok {
        let list = ctes(p, last_node_alias)->Ok_0;
        lemma_cte_list_from_plan(p, last_node_alias);
        plan_cte_names(p).lemma_multiset_has_no_duplicates();
        cte_names(list).lemma_multiset_has_no_duplicates_conv();
    }
}

/// Every CTE name is unique in a render plan, where every CTE name is
/// unique in the logical plan.
pub proof fn lemma_render_plan_cte_names_unique(p: PlanV)
    requires
        plan_cte_names(p).no_duplicates(),
    ensures
        render_plan(p) matches Ok(rp) ==> cte_names(rp.ctes).no_duplicates(),
{
    if render_plan(p) is Ok {
        let rp = render_plan(p)->Ok_0;
        match last_node_cte(p) {
            Some(cte) => {
                let alias = last_node_alias(p)->Some_0;
                lemma_cte_names_unique(p, alias);
            },
            None => {
                assert(cte_names(rp.ctes) =~= Seq::<Text>::empty());
            },
        }
    }
}

/// How often a name occurs among the names.
pub open spec fn occurs(names: Seq<Text>, x: Text) -> nat {
    names.to_multiset().count(x)
}

proof fn lemma_occurs_concat(a: Seq<Text>, b: Seq<Text>, x: Text)
    ensures
        occurs(a + b, x) == occurs(a, x) + occurs(b, x),
{
    broadcast use vstd::multiset::group_multiset_axioms;

    vstd::seq_lib::lemma_multiset_commutative(a, b);
}

proof fn lemma_occurs_one(name: Text, x: Text)
    ensures
        occurs(seq![name], x) == if x == name {
            1nat
        } else {
            0nat
        },
        occurs(Seq::<Text>::empty(), x) == 0,
{
    broadcast use {vstd::multiset::group_multiset_axioms, vstd::seq_lib::group_to_multiset_ensures};

    let one = seq![name];
    assert(one =~= Seq::<Text>::empty().push(name));
    assert(Seq::<Text>::empty().to_multiset() =~= vstd::multiset::Multiset::<Text>::empty()) by {
        assert(Seq::<Text>::empty().to_multiset().len() == 0);
    }
    assert(one.to_multiset() =~= Seq::<Text>::empty().to_multiset().insert(name));
}

proof fn lemma_listed_occurs(p: PlanV, alias: Text, x: Text)
    ensures
        ctes(p, alias) matches Ok(list) ==> occurs(cte_names(list), x) <= occurs(
            plan_cte_names(p),
            x,
        ),
{
    lemma_cte_list_from_plan(p, alias);
}

/// The name of the CTE that the outer query reads directly is the name of
/// a CTE of the plan.
pub proof fn lemma_last_node_cte_is_of_the_plan(p: PlanV)
    ensures
        last_node_cte(p) matches Some(cte) ==> occurs(plan_cte_names(p), cte.name) >= 1,
    decreases p,
{
    match p {
        PlanV::Empty => {},
        PlanV::Scan { .. } => {},
        PlanV::Union { .. } => {},
        PlanV::GraphRel { left, center, right, .. } => {
            if let Some(cte) = last_node_cte(p) {
                lemma_last_node_cte_is_of_the_plan(*left);
                lemma_last_node_cte_is_of_the_plan(*right);
                let names = plan_cte_names(*right) + plan_cte_names(*center);
                lemma_occurs_concat(plan_cte_names(*right), plan_cte_names(*center), cte.name);
                lemma_occurs_concat(names, plan_cte_names(*left), cte.name);
            }
        },
        PlanV::Cte { name, .. } => {
            lemma_occurs_one(name, name);
        },
        _ => {
            lemma_last_node_cte_is_of_the_plan(p.input());
        },
    }
}

/// The CTE list holds the CTEs of the plan but the one that the outer
/// query reads directly: counted with that one, no name occurs more often
/// than among the CTEs of the plan.
pub proof fn lemma_last_node_cte_is_left_out(p: PlanV, alias: Text, x: Text)
    requires
        last_node_cte(p) is Some,
        last_node_alias(p) == Some(alias),
    ensures
        ctes(p, alias) matches Ok(list) ==> occurs(cte_names(list), x) + occurs(
            seq![last_node_cte(p)->Some_0.name],
            x,
        ) <= occurs(plan_cte_names(p), x),
    decreases p,
{
    let name = last_node_cte(p)->Some_0.name;
    lemma_occurs_one(name, x);
    if ctes(p, alias) is Ok {
        let list = ctes(p, alias)->Ok_0;
        match p {
            PlanV::Empty => {},
            PlanV::Scan { .. } => {},
            PlanV::Union { .. } => {},
            PlanV::GraphNode { input, alias: node, .. } => {
                if node == alias {
                    assert(cte_names(list) =~= Seq::<Text>::empty());
                    lemma_last_node_cte_is_of_the_plan(*input);
                } else {
                    lemma_last_node_cte_is_left_out(*input, alias, x);
                }
            },
            PlanV::GraphRel { left, center, right, left_connection, .. } => {
                let r = ctes(*right, alias)->Ok_0;
                let c = ctes(*center, alias)->Ok_0;
                let pr = plan_cte_names(*right);
                let pc = plan_cte_names(*center);
                let pl = plan_cte_names(*left);
                lemma_occurs_concat(pr, pc, x);
                lemma_occurs_concat(pr + pc, pl, x);
                lemma_cte_names_concat(r, c);
                lemma_occurs_concat(cte_names(r), cte_names(c), x);
                lemma_listed_occurs(*center, alias, x);
                if last_node_cte(*left) is Some {
                    lemma_listed_occurs(*right, alias, x);
                    if left_connection != alias {
                        let l = ctes(*left, alias)->Ok_0;
                        lemma_last_node_cte_is_left_out(*left, alias, x);
                        lemma_cte_names_concat(r + c, l);
                        lemma_occurs_concat(cte_names(r + c), cte_names(l), x);
                    } else {
                        lemma_last_node_cte_is_of_the_plan(*left);
                    }
                } else {
                    lemma_last_node_cte_is_left_out(*right, alias, x);
                    if left_connection != alias {
                        let l = ctes(*left, alias)->Ok_0;
                        lemma_listed_occurs(*left, alias, x);
                        lemma_cte_names_concat(r + c, l);
                        lemma_occurs_concat(cte_names(r + c), cte_names(l), x);
                    }
                }
            },
            PlanV::Cte { input, name: own } => {
                assert(cte_names(list) =~= Seq::<Text>::empty());
            },
            _ => {
                lemma_last_node_cte_is_left_out(p.input(), alias, x);
            },
        }
    }
}

/// Where every CTE name is unique in the logical plan, the CTE that the
/// outer query reads directly is not in the CTE list of the render plan.
pub proof fn lemma_render_plan_leaves_its_table_out(p: PlanV)
    requires
        plan_cte_names(p).no_duplicates(),
    ensures
        (render_plan(p) is Ok && last_node_cte(p) is Some) ==> !cte_names(
            render_plan(p)->Ok_0.ctes,
        ).contains(last_node_cte(p)->Some_0.name),
{
    broadcast use vstd::seq_lib::group_to_multiset_ensures;

    if render_plan(p) is Ok && last_node_cte(p) is Some {
        let name = last_node_cte(p)->Some_0.name;
        let alias = last_node_alias(p)->Some_0;
        let list = ctes(p, alias)->Ok_0;
        assert(render_plan(p)->Ok_0.ctes == list);
        lemma_last_node_cte_is_left_out(p, alias, name);
        lemma_occurs_one(name, name);
        plan_cte_names(p).lemma_multiset_has_no_duplicates();
        lemma_last_node_cte_is_of_the_plan(p);
        assert(occurs(plan_cte_names(p), name) == 1);
        assert(occurs(cte_names(list), name) == 0);
    }
}

/// The aliases of the nodes and relationships of a plan, each as often as
/// it occurs. The inputs of a union are left out.
pub open spec fn alias_bag(p: PlanV) -> Multiset<Text>
    decreases p,
{
    match p {
        PlanV::Empty => Multiset::empty(),
        PlanV::Scan { .. } => Multiset::empty(),
        PlanV::Union { .. } => Multiset::empty(),
        PlanV::GraphNode { input, alias, .. } => alias_bag(*input).insert(alias),
        PlanV::GraphRel { left, center, right, alias, .. } => alias_bag(*left).add(
            alias_bag(*center),
        ).add(alias_bag(*right)).insert(alias),
        _ => alias_bag(p.input()),
    }
}

/// `true` for what rotation can re-parent without loss: a node, or a
/// relationship between two such plans.
pub open spec fn is_rotatable(p: PlanV) -> bool
    decreases p,
{
    match p {
        PlanV::GraphNode { .. } => true,
        PlanV::GraphRel { left, right, .. } => is_rotatable(*left) && is_rotatable(*right),
        _ => false,
    }
}

/// `true` when the right child of every relationship of the plan can be
/// re-parented without loss.
pub open spec fn rels_rotatable(p: PlanV) -> bool
    decreases p,
{
    match p {
        PlanV::Empty => true,
        PlanV::Scan { .. } => true,
        PlanV::Union { .. } => true,
        PlanV::GraphRel { left, center, right, .. } => {
            &&& is_rotatable(*right)
            &&& rels_rotatable(*left)
            &&& rels_rotatable(*center)
            &&& rels_rotatable(*right)
        },
        _ => rels_rotatable(p.input()),
    }
}

/// Re-parenting loses no alias and makes none up.
pub proof fn lemma_rotate_keeps_aliases(prev: PlanV, remaining: PlanV)
    requires
        prev is GraphRel,
        *prev->left is Empty,
        is_rotatable(remaining),
    ensures
        alias_bag(rotate(prev, remaining)) == alias_bag(prev).add(alias_bag(remaining)),
    decreases remaining,
{
    broadcast use vstd::multiset::group_multiset_axioms;

    match (prev, remaining) {
        (
            PlanV::GraphRel {
                left: p_left,
                center: p_center,
                right: p_right,
                alias: p_alias,
                direction: p_direction,
                left_connection: p_lc,
                right_connection: p_rc,
                is_rel_anchor: p_anchor,
            },
            PlanV::GraphRel {
                left,
                center,
                right,
                alias,
                direction,
                left_connection,
                right_connection,
                is_rel_anchor,
            },
        ) => {
            let flipped = p_lc == left_connection;
            let attached = if flipped {
                left
            } else {
                right
            };
            let next = if flipped {
                right
            } else {
                left
            };
            let inner = PlanV::GraphRel {
                left: attached,
                center: p_center,
                right: p_right,
                alias: p_alias,
                direction: p_direction,
                left_connection: p_lc,
                right_connection: p_rc,
                is_rel_anchor: p_anchor,
            };
            let outer = PlanV::GraphRel {
                left: Box::new(PlanV::Empty),
                center,
                right: Box::new(inner),
                alias,
                direction: if flipped {
                    direction.reversed()
                } else {
                    direction
                },
                left_connection: if flipped {
                    right_connection
                } else {
                    left_connection
                },
                right_connection: if flipped {
                    left_connection
                } else {
                    right_connection
                },
                is_rel_anchor: false,
            };
            lemma_rotate_keeps_aliases(outer, *next);
            assert(rotate(prev, remaining) == rotate(outer, *next));
            let empty_bag = Multiset::<Text>::empty();
            assert(alias_bag(*p_left) == empty_bag);
            assert(alias_bag(PlanV::Empty) == empty_bag);
            assert(alias_bag(prev) == empty_bag.add(alias_bag(*p_center)).add(
                alias_bag(*p_right),
            ).insert(p_alias));
            assert(alias_bag(inner) == alias_bag(*attached).add(alias_bag(*p_center)).add(
                alias_bag(*p_right),
            ).insert(p_alias));
            assert(alias_bag(remaining) == alias_bag(*left).add(alias_bag(*center)).add(
                alias_bag(*right),
            ).insert(alias));
            assert(alias_bag(outer) == empty_bag.add(alias_bag(*center)).add(
                alias_bag(inner),
            ).insert(alias));
            assert(alias_bag(inner) =~= alias_bag(prev).add(alias_bag(*attached)));
            assert(alias_bag(outer) =~= alias_bag(inner).add(alias_bag(*center)).insert(alias));
            assert(alias_bag(outer).add(alias_bag(*next)) =~= alias_bag(prev).add(
                alias_bag(remaining),
            ));
        },
        (
            PlanV::GraphRel {
                left: p_left,
                center: p_center,
                right: p_right,
                alias: p_alias,
                direction: p_direction,
                left_connection: p_lc,
                right_connection: p_rc,
                is_rel_anchor: p_anchor,
            },
            PlanV::GraphNode { alias, .. },
        ) => {
            let empty_bag = Multiset::<Text>::empty();
            let rotated = PlanV::GraphRel {
                left: Box::new(remaining),
                center: p_center,
                right: p_right,
                alias: p_alias,
                direction: p_direction,
                left_connection: alias,
                right_connection: p_rc,
                is_rel_anchor: p_anchor,
            };
            assert(rotate(prev, remaining) == rotated);
            assert(alias_bag(*p_left) == empty_bag);
            assert(alias_bag(prev) == empty_bag.add(alias_bag(*p_center)).add(
                alias_bag(*p_right),
            ).insert(p_alias));
            assert(alias_bag(rotated) == alias_bag(remaining).add(alias_bag(*p_center)).add(
                alias_bag(*p_right),
            ).insert(p_alias));
            assert(alias_bag(rotated) =~= alias_bag(prev).add(alias_bag(remaining)));
        },
        _ => {},
    }
}

/// The rotation around an anchor loses no alias and makes none up.
pub proof fn lemma_rotation_keeps_aliases(p: PlanV, anchor: Text)
    requires
        rels_rotatable(p),
    ensures
        alias_bag(rotation(p, anchor).plan()) == alias_bag(p),
    decreases p,
{
    broadcast use vstd::multiset::group_multiset_axioms;

    match p {
        PlanV::Empty => {},
        PlanV::Scan { .. } => {},
        PlanV::Union { .. } => {},
        PlanV::GraphRel { left, center, right, alias, left_connection, .. } => {
            let empty_bag = Multiset::<Text>::empty();
            assert(alias_bag(PlanV::Empty) == empty_bag);
            assert(alias_bag(p) == alias_bag(*left).add(alias_bag(*center)).add(
                alias_bag(*right),
            ).insert(alias));
            if left_connection == anchor {
                let start = node_anchor_start(p);
                lemma_rotate_keeps_aliases(start, *right);
                assert(alias_bag(start) == empty_bag.add(alias_bag(*center)).add(
                    alias_bag(*left),
                ).insert(alias));
                assert(alias_bag(start).add(alias_bag(*right)) =~= alias_bag(p));
            } else if alias == anchor {
                let start = rel_anchor_start(p);
                lemma_rotate_keeps_aliases(start, *right);
                assert(alias_bag(start) == empty_bag.add(alias_bag(*left)).add(
                    alias_bag(*center),
                ).insert(alias));
                assert(alias_bag(start).add(alias_bag(*right)) =~= alias_bag(p));
            } else {
                lemma_rotation_keeps_aliases(*left, anchor);
                lemma_rotation_keeps_aliases(*center, anchor);
                lemma_rotation_keeps_aliases(*right, anchor);
            }
        },
        _ => {
            lemma_rotation_keeps_aliases(p.input(), anchor);
            let tf = rotation(p.input(), anchor);
            if tf is Yes && p is Cte && tf.plan() is Empty {
                assert(alias_bag(p.input()) == alias_bag(PlanV::Empty));
            }
        },
    }
}

/// Anchor selection keeps the aliases of a plan: the nodes and the
/// relationships of the rotated plan are those of the plan, each as often.
pub proof fn lemma_anchor_selection_keeps_aliases(p: PlanV, anchor: Text)
    requires
        rels_rotatable(p),
    ensures
        alias_bag(anchor_traversal(p, anchor).plan()) == alias_bag(p),
    decreases p,
{
    match p {
        PlanV::Empty => {},
        PlanV::Scan { .. } => {},
        PlanV::Union { .. } => {},
        PlanV::GraphRel { right_connection, .. } => {
            if right_connection != anchor {
                lemma_rotation_keeps_aliases(p, anchor);
            }
        },
        _ => {
            lemma_anchor_selection_keeps_aliases(p.input(), anchor);
            let tf = anchor_traversal(p.input(), anchor);
            if tf is Yes && p is Cte && tf.plan() is Empty {
                assert(alias_bag(p.input()) == alias_bag(PlanV::Empty));
            }
        },
    }
}

/// `true` when the anchor is a node that rotation can bring to the start
/// of the plan: the start node itself, or the left endpoint of a
/// relationship on the way down the right children.
pub open spec fn anchored(p: PlanV, anchor: Text) -> bool
    decreases p,
{
    match p {
        PlanV::Empty => false,
        PlanV::Scan { .. } => false,
        PlanV::Union { .. } => false,
        PlanV::GraphNode { alias, .. } => alias == anchor,
        PlanV::GraphRel { left, right, alias, left_connection, .. } => {
            if left_connection == anchor {
                rightmost_node(*left) == Some(anchor)
            } else {
                alias != anchor && anchored(*right, anchor)
            }
        },
        _ => anchored(p.input(), anchor),
    }
}

/// `true` when the first relationship on the way down ends at the anchor.
pub open spec fn first_rel_ends_at(p: PlanV, anchor: Text) -> bool
    decreases p,
{
    match p {
        PlanV::Empty => false,
        PlanV::Scan { .. } => false,
        PlanV::Union { .. } => false,
        PlanV::GraphRel { right_connection, .. } => right_connection == anchor,
        _ => first_rel_ends_at(p.input(), anchor),
    }
}

proof fn lemma_rotation_starts_at_anchor(p: PlanV, anchor: Text)
    requires
        anchored(p, anchor),
    ensures
        rightmost_node(rotation(p, anchor).plan()) == Some(anchor),
    decreases p,
{
    match p {
        PlanV::Empty => {},
        PlanV::Scan { .. } => {},
        PlanV::Union { .. } => {},
        PlanV::GraphNode { .. } => {},
        PlanV::GraphRel { left, center, right, alias, left_connection, .. } => {
            if left_connection == anchor {
                lemma_rotate_keeps_rightmost(node_anchor_start(p), *right);
            } else {
                lemma_rotation_starts_at_anchor(*right, anchor);
            }
        },
        _ => {
            lemma_rotation_starts_at_anchor(p.input(), anchor);
        },
    }
}

/// After anchor selection the anchor starts the traversal: where the
/// anchor is a node of the plan and the first relationship does not end
/// at it, the anchor is the node at the far right of the plan.
pub proof fn lemma_anchor_starts_traversal(p: PlanV, anchor: Text)
    requires
        anchored(p, anchor),
        !first_rel_ends_at(p, anchor),
    ensures
        rightmost_node(anchor_traversal(p, anchor).plan()) == Some(anchor),
    decreases p,
{
    match p {
        PlanV::Empty => {},
        PlanV::Scan { .. } => {},
        PlanV::Union { .. } => {},
        PlanV::GraphNode { .. } => {},
        PlanV::GraphRel { .. } => {
            lemma_rotation_starts_at_anchor(p, anchor);
        },
        _ => {
            lemma_anchor_starts_traversal(p.input(), anchor);
        },
    }
}

/// A plan whose first relationship ends at the anchor stays as it is.
pub proof fn lemma_anchor_at_first_relationship_stays(p: PlanV, anchor: Text)
    requires
        first_rel_ends_at(p, anchor),
    ensures
        anchor_traversal(p, anchor) == Transformed::No(p),
    decreases p,
{
    match p {
        PlanV::Empty => {},
        PlanV::Scan { .. } => {},
        PlanV::Union { .. } => {},
        PlanV::GraphRel { .. } => {},
        _ => {
            lemma_anchor_at_first_relationship_stays(p.input(), anchor);
        },
    }
}

/// Anchor selection leaves a plan without relationships as it is: where
/// the anchor is the left-most node of such a plan before the pass, it is
/// the left-most node after it.
pub proof fn lemma_anchor_stays_leftmost(p: PlanV, anchor: Text)
    requires
        is_simple(p),
    ensures
        anchor_traversal(p, anchor) == Transformed::No(p),
        tagged_last_node(p, Seq::empty()) == anchor ==> tagged_last_node(
            anchor_traversal(p, anchor).plan(),
            Seq::empty(),
        ) == anchor,
    decreases p,
{
    match p {
        PlanV::Empty => {},
        PlanV::Scan { .. } => {},
        PlanV::GraphRel { .. } => {},
        PlanV::Union { .. } => {},
        _ => {
            lemma_anchor_stays_leftmost(p.input(), anchor);
        },
    }
}

} // verus!
