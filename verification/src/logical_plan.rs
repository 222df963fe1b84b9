//! The logical plan: an immutable tree of graph and relational operators
//! whose nodes are shared by reference.
use vstd::prelude::*;
use std::sync::Arc;
use crate::views::{seq_view, opt_view, Text};
use crate::expr::{
    clone_exprs, clone_op_apps, ColumnAlias, Direction, ExprV, OpAppV, OperatorApplication,
    PlanExpr,
};
use crate::transformed::Transformed;

verus! {

/// A leaf that reads the table behind an alias. The table name is filled in
/// once the label of the alias is known.
#[derive(Debug, Clone, PartialEq)]
pub struct Scan {
    pub table_alias: String,
    pub table_name: Option<String>,
}

/// A node of a pattern.
#[derive(Debug, PartialEq)]
pub struct GraphNode {
    pub input: Arc<LogicalPlan>,
    pub alias: String,
    /// The alias of the edge that links this node to the pattern below it.
    pub down_connection: Option<String>,
}

/// A relationship with its two endpoints. `left` is `Empty` when the left
/// endpoint is already materialised elsewhere in the plan.
#[derive(Debug, PartialEq)]
pub struct GraphRel {
    pub left: Arc<LogicalPlan>,
    pub center: Arc<LogicalPlan>,
    pub right: Arc<LogicalPlan>,
    pub alias: String,
    pub direction: Direction,
    pub left_connection: String,
    pub right_connection: String,
    pub is_rel_anchor: bool,
}

/// A named inline view.
#[derive(Debug, PartialEq)]
pub struct Cte {
    pub input: Arc<LogicalPlan>,
    pub name: String,
}

/// The joins that reassemble the rows of the outer query.
#[derive(Debug, PartialEq)]
pub struct GraphJoins {
    pub input: Arc<LogicalPlan>,
    pub joins: Vec<Join>,
}

/// One join of the outer query.
#[derive(Debug, Clone, PartialEq)]
pub struct Join {
    pub table_name: String,
    pub table_alias: String,
    pub joining_on: Vec<OperatorApplication>,
}

#[derive(Debug, PartialEq)]
pub struct Filter {
    pub input: Arc<LogicalPlan>,
    pub predicate: PlanExpr,
}

#[derive(Debug, PartialEq)]
pub struct Projection {
    pub input: Arc<LogicalPlan>,
    pub items: Vec<ProjectionItem>,
}

#[derive(Debug, PartialEq)]
pub struct GroupBy {
    pub input: Arc<LogicalPlan>,
    pub expressions: Vec<PlanExpr>,
}

#[derive(Debug, Clone, PartialEq)]
pub struct ProjectionItem {
    pub expression: PlanExpr,
    pub col_alias: Option<ColumnAlias>,
}

#[derive(Debug, PartialEq)]
pub struct OrderBy {
    pub input: Arc<LogicalPlan>,
    pub items: Vec<OrderByItem>,
}

#[derive(Debug, PartialEq)]
pub struct Skip {
    pub input: Arc<LogicalPlan>,
    pub count: i64,
}

#[derive(Debug, PartialEq)]
pub struct Limit {
    pub input: Arc<LogicalPlan>,
    pub count: i64,
}

#[derive(Debug, Clone, PartialEq)]
pub struct OrderByItem {
    pub expression: PlanExpr,
    pub order: OrderByOrder,
}

#[derive(Debug, Clone, Copy, PartialEq, Eq, Structural)]
pub enum OrderByOrder {
    Asc,
    Desc,
}

/// The rows of several plans, one after the other.
#[derive(Debug, PartialEq)]
pub struct Union {
    pub inputs: Vec<Arc<LogicalPlan>>,
}

/// The node kinds of a logical plan.
#[derive(Debug, PartialEq)]
pub enum LogicalPlan {
    Empty,
    /// Reads the table of one alias.
    Scan(Scan),
    GraphNode(GraphNode),
    GraphRel(GraphRel),
    /// Keeps the rows that satisfy a predicate.
    Filter(Filter),
    /// Returns a list of expressions.
    Projection(Projection),
    GroupBy(GroupBy),
    OrderBy(OrderBy),
    Skip(Skip),
    Limit(Limit),
    Cte(Cte),
    GraphJoins(GraphJoins),
    Union(Union),
}

pub ghost struct ProjectionItemV {
    pub expression: ExprV,
    pub col_alias: Option<Text>,
}

pub ghost struct OrderByItemV {
    pub expression: ExprV,
    pub order: OrderByOrder,
}

pub ghost struct JoinV {
    pub table_name: Text,
    pub table_alias: Text,
    pub joining_on: Seq<OpAppV>,
}

/// The mathematical value of a logical plan.
pub ghost enum PlanV {
    Empty,
    Scan { table_alias: Text, table_name: Option<Text> },
    GraphNode { input: Box<PlanV>, alias: Text, down_connection: Option<Text> },
    GraphRel {
        left: Box<PlanV>,
        center: Box<PlanV>,
        right: Box<PlanV>,
        alias: Text,
        direction: Direction,
        left_connection: Text,
        right_connection: Text,
        is_rel_anchor: bool,
    },
    Filter { input: Box<PlanV>, predicate: ExprV },
    Projection { input: Box<PlanV>, items: Seq<ProjectionItemV> },
    GroupBy { input: Box<PlanV>, expressions: Seq<ExprV> },
    OrderBy { input: Box<PlanV>, items: Seq<OrderByItemV> },
    Skip { input: Box<PlanV>, count: i64 },
    Limit { input: Box<PlanV>, count: i64 },
    Cte { input: Box<PlanV>, name: Text },
    GraphJoins { input: Box<PlanV>, joins: Seq<JoinV> },
    Union { inputs: Seq<PlanV> },
}

impl View for ProjectionItem {
    type V = ProjectionItemV;

    open spec fn view(&self) -> ProjectionItemV {
        ProjectionItemV { expression: self.expression@, col_alias: opt_view(self.col_alias) }
    }
}

impl View for OrderByItem {
    type V = OrderByItemV;

    open spec fn view(&self) -> OrderByItemV {
        OrderByItemV { expression: self.expression@, order: self.order }
    }
}

impl View for Join {
    type V = JoinV;

    open spec fn view(&self) -> JoinV {
        JoinV {
            table_name: self.table_name@,
            table_alias: self.table_alias@,
            joining_on: seq_view(self.joining_on@),
        }
    }
}

impl View for Scan {
    type V = PlanV;

    open spec fn view(&self) -> PlanV {
        PlanV::Scan { table_alias: self.table_alias@, table_name: opt_view(self.table_name) }
    }
}

/// The views of a sequence of plans, built from the left.
pub open spec fn plans_view(s: Seq<Arc<LogicalPlan>>) -> Seq<PlanV>
    decreases s,
{
    if s.len() == 0 {
        Seq::empty()
    } else {
        plans_view(s.drop_last()).push((*s.last())@)
    }
}

impl View for LogicalPlan {
    type V = PlanV;

    open spec fn view(&self) -> PlanV
        decreases self,
    {
        match self {
            LogicalPlan::Empty => PlanV::Empty,
            LogicalPlan::Scan(s) => PlanV::Scan {
                table_alias: s.table_alias@,
                table_name: opt_view(s.table_name),
            },
            LogicalPlan::GraphNode(n) => PlanV::GraphNode {
                input: Box::new((*n.input)@),
                alias: n.alias@,
                down_connection: opt_view(n.down_connection),
            },
            LogicalPlan::GraphRel(r) => PlanV::GraphRel {
                left: Box::new((*r.left)@),
                center: Box::new((*r.center)@),
                right: Box::new((*r.right)@),
                alias: r.alias@,
                direction: r.direction,
                left_connection: r.left_connection@,
                right_connection: r.right_connection@,
                is_rel_anchor: r.is_rel_anchor,
            },
            LogicalPlan::Filter(f) => PlanV::Filter {
                input: Box::new((*f.input)@),
                predicate: f.predicate@,
            },
            LogicalPlan::Projection(p) => PlanV::Projection {
                input: Box::new((*p.input)@),
                items: seq_view(p.items@),
            },
            LogicalPlan::GroupBy(g) => PlanV::GroupBy {
                input: Box::new((*g.input)@),
                expressions: seq_view(g.expressions@),
            },
            LogicalPlan::OrderBy(o) => PlanV::OrderBy {
                input: Box::new((*o.input)@),
                items: seq_view(o.items@),
            },
            LogicalPlan::Skip(s) => PlanV::Skip { input: Box::new((*s.input)@), count: s.count },
            LogicalPlan::Limit(l) => PlanV::Limit { input: Box::new((*l.input)@), count: l.count },
            LogicalPlan::Cte(c) => PlanV::Cte { input: Box::new((*c.input)@), name: c.name@ },
            LogicalPlan::GraphJoins(j) => PlanV::GraphJoins {
                input: Box::new((*j.input)@),
                joins: seq_view(j.joins@),
            },
            LogicalPlan::Union(u) => PlanV::Union { inputs: plans_view(u.inputs@) },
        }
    }
}

/// The left-built view of a sequence of plans is its element-wise view.
pub proof fn lemma_plans_view(s: Seq<Arc<LogicalPlan>>)
    ensures
        plans_view(s) == seq_view(s),
    decreases s.len(),
{
    if s.len() > 0 {
        lemma_plans_view(s.drop_last());
        assert(plans_view(s) == plans_view(s.drop_last()).push((*s.last())@));
        assert(seq_view(s.drop_last()).push((*s.last())@) =~= seq_view(s));
    } else {
        assert(plans_view(s) =~= seq_view(s));
    }
}

/// The view of a union is the union of the views of its inputs.
pub broadcast proof fn lemma_union_view(p: LogicalPlan)
    ensures
        p matches LogicalPlan::Union(u) ==> (#[trigger] p.view()) == (PlanV::Union {
            inputs: seq_view(u.inputs@),
        }),
{
    if let LogicalPlan::Union(u) = p {
        lemma_plans_view(u.inputs@);
    }
}

impl PlanV {
    /// `true` for the node kinds that have exactly one child.
    pub open spec fn has_input(self) -> bool {
        !(self is Empty || self is Scan || self is GraphRel || self is Union)
    }

    /// The child of a node with exactly one child.
    pub open spec fn input(self) -> PlanV
        recommends
            self.has_input(),
    {
        match self {
            PlanV::GraphNode { input, .. } => *input,
            PlanV::Filter { input, .. } => *input,
            PlanV::Projection { input, .. } => *input,
            PlanV::GroupBy { input, .. } => *input,
            PlanV::OrderBy { input, .. } => *input,
            PlanV::Skip { input, .. } => *input,
            PlanV::Limit { input, .. } => *input,
            PlanV::Cte { input, .. } => *input,
            PlanV::GraphJoins { input, .. } => *input,
            _ => PlanV::Empty,
        }
    }

    /// The same node over another child. A `Cte` over `Empty` is `Empty`.
    pub open spec fn with_input(self, new_input: PlanV) -> PlanV
        recommends
            self.has_input(),
    {
        match self {
            PlanV::GraphNode { input, alias, down_connection } => PlanV::GraphNode {
                input: Box::new(new_input),
                alias,
                down_connection,
            },
            PlanV::Filter { input, predicate } => PlanV::Filter {
                input: Box::new(new_input),
                predicate,
            },
            PlanV::Projection { input, items } => PlanV::Projection {
                input: Box::new(new_input),
                items,
            },
            PlanV::GroupBy { input, expressions } => PlanV::GroupBy {
                input: Box::new(new_input),
                expressions,
            },
            PlanV::OrderBy { input, items } => PlanV::OrderBy { input: Box::new(new_input), items },
            PlanV::Skip { input, count } => PlanV::Skip { input: Box::new(new_input), count },
            PlanV::Limit { input, count } => PlanV::Limit { input: Box::new(new_input), count },
            PlanV::Cte { input, name } => if new_input is Empty {
                PlanV::Empty
            } else {
                PlanV::Cte { input: Box::new(new_input), name }
            },
            PlanV::GraphJoins { input, joins } => PlanV::GraphJoins {
                input: Box::new(new_input),
                joins,
            },
            other => other,
        }
    }

    /// A relationship node over other children.
    pub open spec fn with_children(self, l: PlanV, c: PlanV, r: PlanV) -> PlanV
        recommends
            self is GraphRel,
    {
        match self {
            PlanV::GraphRel {
                left,
                center,
                right,
                alias,
                direction,
                left_connection,
                right_connection,
                is_rel_anchor,
            } => PlanV::GraphRel {
                left: Box::new(l),
                center: Box::new(c),
                right: Box::new(r),
                alias,
                direction,
                left_connection,
                right_connection,
                is_rel_anchor,
            },
            other => other,
        }
    }
}

impl ProjectionItem {
    pub fn deep_clone(&self) -> (r: ProjectionItem)
        ensures
            r@ == self@,
    {
        ProjectionItem {
            expression: self.expression.deep_clone(),
            col_alias: match &self.col_alias {
                Some(a) => Some(ColumnAlias(a.0.clone())),
                None => None,
            },
        }
    }

    /// Structural equality: `true` exactly when the two views are equal.
    pub fn same(&self, other: &ProjectionItem) -> (r: bool)
        ensures
            r == (self@ == other@),
    {
        let alias_same = match (&self.col_alias, &other.col_alias) {
            (Some(a), Some(b)) => a.0 == b.0,
            (None, None) => true,
            _ => false,
        };
        alias_same && self.expression.same(&other.expression)
    }
}

/// Copies of the projection items of `v`, in order.
pub fn clone_items(v: &Vec<ProjectionItem>) -> (out: Vec<ProjectionItem>)
    ensures
        seq_view(out@) == seq_view(v@),
{
    let mut out: Vec<ProjectionItem> = Vec::new();
    let mut i: usize = 0;
    while i < v.len()
        invariant
            i <= v.len(),
            seq_view(out@) == seq_view(v@).take(i as int),
        decreases v.len() - i,
    {
        let c = v[i].deep_clone();
        let ghost prev = out@;
        out.push(c);
        assert(seq_view(out@) =~= seq_view(prev).push(c@));
        assert(seq_view(v@).take(i + 1) =~= seq_view(v@).take(i as int).push(v@[i as int]@));
        i += 1;
    }
    assert(seq_view(v@).take(v.len() as int) =~= seq_view(v@));
    out
}

impl OrderByItem {
    pub fn deep_clone(&self) -> (r: OrderByItem)
        ensures
            r@ == self@,
    {
        OrderByItem { expression: self.expression.deep_clone(), order: self.order }
    }
}

/// Copies of the order-by items of `v`, in order.
pub fn clone_order_items(v: &Vec<OrderByItem>) -> (out: Vec<OrderByItem>)
    ensures
        seq_view(out@) == seq_view(v@),
{
    let mut out: Vec<OrderByItem> = Vec::new();
    let mut i: usize = 0;
    while i < v.len()
        invariant
            i <= v.len(),
            seq_view(out@) == seq_view(v@).take(i as int),
        decreases v.len() - i,
    {
        let c = v[i].deep_clone();
        let ghost prev = out@;
        out.push(c);
        assert(seq_view(out@) =~= seq_view(prev).push(c@));
        assert(seq_view(v@).take(i + 1) =~= seq_view(v@).take(i as int).push(v@[i as int]@));
        i += 1;
    }
    assert(seq_view(v@).take(v.len() as int) =~= seq_view(v@));
    out
}

impl Join {
    pub fn deep_clone(&self) -> (r: Join)
        ensures
            r@ == self@,
    {
        Join {
            table_name: self.table_name.clone(),
            table_alias: self.table_alias.clone(),
            joining_on: clone_op_apps(&self.joining_on),
        }
    }
}

/// Copies of the joins of `v`, in order.
pub fn clone_joins(v: &Vec<Join>) -> (out: Vec<Join>)
    ensures
        seq_view(out@) == seq_view(v@),
{
    let mut out: Vec<Join> = Vec::new();
    let mut i: usize = 0;
    while i < v.len()
        invariant
            i <= v.len(),
            seq_view(out@) == seq_view(v@).take(i as int),
        decreases v.len() - i,
    {
        let c = v[i].deep_clone();
        let ghost prev = out@;
        out.push(c);
        assert(seq_view(out@) =~= seq_view(prev).push(c@));
        assert(seq_view(v@).take(i + 1) =~= seq_view(v@).take(i as int).push(v@[i as int]@));
        i += 1;
    }
    assert(seq_view(v@).take(v.len() as int) =~= seq_view(v@));
    out
}

/// What rebuilding a one-child node over a transformed child gives: a new
/// node when the child changed, the old plan itself when it did not.
pub open spec fn rebuilt_with_input(
    node: PlanV,
    input_tf: Transformed<Arc<LogicalPlan>>,
    old_plan: Arc<LogicalPlan>,
    r: Transformed<Arc<LogicalPlan>>,
) -> bool {
    match input_tf {
        Transformed::Yes(new_input) => r is Yes && (*r.plan())@ == node.with_input((*new_input)@),
        Transformed::No(_) => r == Transformed::No(old_plan),
    }
}

impl Filter {
    pub fn rebuild_or_clone(
        &self,
        input_tf: Transformed<Arc<LogicalPlan>>,
        old_plan: Arc<LogicalPlan>,
    ) -> (r: Transformed<Arc<LogicalPlan>>)
        ensures
            rebuilt_with_input(LogicalPlan::Filter(*self)@, input_tf, old_plan, r),
    {
        match input_tf {
            Transformed::Yes(new_input) => Transformed::Yes(
                Arc::new(
                    LogicalPlan::Filter(
                        Filter { input: new_input, predicate: self.predicate.deep_clone() },
                    ),
                ),
            ),
            Transformed::No(_) => Transformed::No(old_plan),
        }
    }
}

impl Projection {
    pub fn rebuild_or_clone(
        &self,
        input_tf: Transformed<Arc<LogicalPlan>>,
        old_plan: Arc<LogicalPlan>,
    ) -> (r: Transformed<Arc<LogicalPlan>>)
        ensures
            rebuilt_with_input(LogicalPlan::Projection(*self)@, input_tf, old_plan, r),
    {
        match input_tf {
            Transformed::Yes(new_input) => Transformed::Yes(
                Arc::new(
                    LogicalPlan::Projection(
                        Projection { input: new_input, items: clone_items(&self.items) },
                    ),
                ),
            ),
            Transformed::No(_) => Transformed::No(old_plan),
        }
    }
}

impl GroupBy {
    pub fn rebuild_or_clone(
        &self,
        input_tf: Transformed<Arc<LogicalPlan>>,
        old_plan: Arc<LogicalPlan>,
    ) -> (r: Transformed<Arc<LogicalPlan>>)
        ensures
            rebuilt_with_input(LogicalPlan::GroupBy(*self)@, input_tf, old_plan, r),
    {
        match input_tf {
            Transformed::Yes(new_input) => Transformed::Yes(
                Arc::new(
                    LogicalPlan::GroupBy(
                        GroupBy { input: new_input, expressions: clone_exprs(&self.expressions) },
                    ),
                ),
            ),
            Transformed::No(_) => Transformed::No(old_plan),
        }
    }
}

impl OrderBy {
    pub fn rebuild_or_clone(
        &self,
        input_tf: Transformed<Arc<LogicalPlan>>,
        old_plan: Arc<LogicalPlan>,
    ) -> (r: Transformed<Arc<LogicalPlan>>)
        ensures
            rebuilt_with_input(LogicalPlan::OrderBy(*self)@, input_tf, old_plan, r),
    {
        match input_tf {
            Transformed::Yes(new_input) => Transformed::Yes(
                Arc::new(
                    LogicalPlan::OrderBy(
                        OrderBy { input: new_input, items: clone_order_items(&self.items) },
                    ),
                ),
            ),
            Transformed::No(_) => Transformed::No(old_plan),
        }
    }
}

impl Skip {
    pub fn rebuild_or_clone(
        &self,
        input_tf: Transformed<Arc<LogicalPlan>>,
        old_plan: Arc<LogicalPlan>,
    ) -> (r: Transformed<Arc<LogicalPlan>>)
        ensures
            rebuilt_with_input(LogicalPlan::Skip(*self)@, input_tf, old_plan, r),
    {
        match input_tf {
            Transformed::Yes(new_input) => Transformed::Yes(
                Arc::new(LogicalPlan::Skip(Skip { input: new_input, count: self.count })),
            ),
            Transformed::No(_) => Transformed::No(old_plan),
        }
    }
}

impl Limit {
    pub fn rebuild_or_clone(
        &self,
        input_tf: Transformed<Arc<LogicalPlan>>,
        old_plan: Arc<LogicalPlan>,
    ) -> (r: Transformed<Arc<LogicalPlan>>)
        ensures
            rebuilt_with_input(LogicalPlan::Limit(*self)@, input_tf, old_plan, r),
    {
        match input_tf {
            Transformed::Yes(new_input) => Transformed::Yes(
                Arc::new(LogicalPlan::Limit(Limit { input: new_input, count: self.count })),
            ),
            Transformed::No(_) => Transformed::No(old_plan),
        }
    }
}

impl GraphNode {
    pub fn rebuild_or_clone(
        &self,
        input_tf: Transformed<Arc<LogicalPlan>>,
        old_plan: Arc<LogicalPlan>,
    ) -> (r: Transformed<Arc<LogicalPlan>>)
        ensures
            rebuilt_with_input(LogicalPlan::GraphNode(*self)@, input_tf, old_plan, r),
    {
        match input_tf {
            Transformed::Yes(new_input) => Transformed::Yes(
                Arc::new(
                    LogicalPlan::GraphNode(
                        GraphNode {
                            input: new_input,
                            alias: self.alias.clone(),
                            down_connection: crate::views::clone_opt_string(&self.down_connection),
                        },
                    ),
                ),
            ),
            Transformed::No(_) => Transformed::No(old_plan),
        }
    }
}

impl GraphRel {
    /// A new relationship node over the three children when at least one of
    /// them changed, the old plan itself when none did.
    pub fn rebuild_or_clone(
        &self,
        left_tf: Transformed<Arc<LogicalPlan>>,
        center_tf: Transformed<Arc<LogicalPlan>>,
        right_tf: Transformed<Arc<LogicalPlan>>,
        old_plan: Arc<LogicalPlan>,
    ) -> (r: Transformed<Arc<LogicalPlan>>)
        ensures
            (left_tf is Yes || center_tf is Yes || right_tf is Yes) ==> r is Yes && (*r.plan())@
                == LogicalPlan::GraphRel(*self)@.with_children(
                (*left_tf.plan())@,
                (*center_tf.plan())@,
                (*right_tf.plan())@,
            ),
            !(left_tf is Yes || center_tf is Yes || right_tf is Yes) ==> r == Transformed::No(
                old_plan,
            ),
    {
        let left_changed = left_tf.is_yes();
        let right_changed = right_tf.is_yes();
        let center_changed = center_tf.is_yes();
        if left_changed || right_changed || center_changed {
            Transformed::Yes(
                Arc::new(
                    LogicalPlan::GraphRel(
                        GraphRel {
                            left: left_tf.get_plan(),
                            center: center_tf.get_plan(),
                            right: right_tf.get_plan(),
                            alias: self.alias.clone(),
                            direction: self.direction,
                            left_connection: self.left_connection.clone(),
                            right_connection: self.right_connection.clone(),
                            is_rel_anchor: self.is_rel_anchor,
                        },
                    ),
                ),
            )
        } else {
            Transformed::No(old_plan)
        }
    }
}

impl Cte {
    /// Like the other one-child nodes, but a `Cte` whose new child is `Empty`
    /// gives way to that child.
    pub fn rebuild_or_clone(
        &self,
        input_tf: Transformed<Arc<LogicalPlan>>,
        old_plan: Arc<LogicalPlan>,
    ) -> (r: Transformed<Arc<LogicalPlan>>)
        ensures
            rebuilt_with_input(LogicalPlan::Cte(*self)@, input_tf, old_plan, r),
    {
        match input_tf {
            Transformed::Yes(new_input) => {
                let is_empty = match &*new_input {
                    LogicalPlan::Empty => true,
                    _ => false,
                };
                if is_empty {
                    Transformed::Yes(new_input)
                } else {
                    Transformed::Yes(
                        Arc::new(
                            LogicalPlan::Cte(Cte { input: new_input, name: self.name.clone() }),
                        ),
                    )
                }
            },
            Transformed::No(_) => Transformed::No(old_plan),
        }
    }
}

impl GraphJoins {
    pub fn rebuild_or_clone(
        &self,
        input_tf: Transformed<Arc<LogicalPlan>>,
        old_plan: Arc<LogicalPlan>,
    ) -> (r: Transformed<Arc<LogicalPlan>>)
        ensures
            rebuilt_with_input(LogicalPlan::GraphJoins(*self)@, input_tf, old_plan, r),
    {
        match input_tf {
            Transformed::Yes(new_input) => Transformed::Yes(
                Arc::new(
                    LogicalPlan::GraphJoins(
                        GraphJoins { input: new_input, joins: clone_joins(&self.joins) },
                    ),
                ),
            ),
            Transformed::No(_) => Transformed::No(old_plan),
        }
    }
}

/// `true` when at least one of the outcomes is `Yes`.
pub open spec fn any_yes(tfs: Seq<Transformed<Arc<LogicalPlan>>>) -> bool {
    exists|i: int| 0 <= i < tfs.len() && tfs[i] is Yes
}

/// The plans that a sequence of outcomes carries.
pub open spec fn carried_views(tfs: Seq<Transformed<Arc<LogicalPlan>>>) -> Seq<PlanV> {
    Seq::new(tfs.len(), |i: int| (*tfs[i].plan())@)
}

impl Union {
    /// A new union over the carried plans when at least one input changed,
    /// the old plan itself when none did.
    pub fn rebuild_or_clone(
        &self,
        inputs_tf: Vec<Transformed<Arc<LogicalPlan>>>,
        old_plan: Arc<LogicalPlan>,
    ) -> (r: Transformed<Arc<LogicalPlan>>)
        ensures
            any_yes(inputs_tf@) ==> r is Yes && (*r.plan())@ == (PlanV::Union {
                inputs: carried_views(inputs_tf@),
            }),
            !any_yes(inputs_tf@) ==> r == Transformed::No(old_plan),
    {
        broadcast use lemma_union_view;

        let mut changed = false;
        let mut new_inputs: Vec<Arc<LogicalPlan>> = Vec::new();
        let mut i: usize = 0;
        while i < inputs_tf.len()
            invariant
                i <= inputs_tf.len(),
                changed == any_yes(inputs_tf@.take(i as int)),
                seq_view(new_inputs@) == carried_views(inputs_tf@.take(i as int)),
            decreases inputs_tf.len() - i,
        {
            let ghost prev = new_inputs@;
            let was = changed;
            match &inputs_tf[i] {
                Transformed::Yes(p) => {
                    changed = true;
                    new_inputs.push(p.clone());
                },
                Transformed::No(p) => {
                    new_inputs.push(p.clone());
                },
            }
            proof {
                let t0 = inputs_tf@.take(i as int);
                let t1 = inputs_tf@.take(i + 1);
                assert(t1.drop_last() =~= t0);
                let x = inputs_tf@[i as int].plan();
                assert(new_inputs@ == prev.push(x));
                assert(seq_view(new_inputs@) =~= seq_view(prev).push((*x)@));
                assert(carried_views(t1) =~= carried_views(t0).push((*x)@));
                if any_yes(t1) {
                    let k = choose|k: int| 0 <= k < t1.len() && t1[k] is Yes;
                    if k < i {
                        assert(t0[k] is Yes);
                    }
                }
                if was {
                    let k = choose|k: int| 0 <= k < t0.len() && t0[k] is Yes;
                    assert(t1[k] is Yes);
                }
                if inputs_tf@[i as int] is Yes {
                    assert(t1[i as int] is Yes);
                }
            }
            i += 1;
        }
        assert(inputs_tf@.take(inputs_tf.len() as int) =~= inputs_tf@);
        if changed {
            Transformed::Yes(Arc::new(LogicalPlan::Union(Union { inputs: new_inputs })))
        } else {
            Transformed::No(old_plan)
        }
    }
}

/// The outcome of a pass as contracts see it.
pub open spec fn tf_view(t: Transformed<Arc<LogicalPlan>>) -> Transformed<PlanV> {
    match t {
        Transformed::Yes(p) => Transformed::Yes((*p)@),
        Transformed::No(p) => Transformed::No((*p)@),
    }
}

/// The outcomes of a pass on several plans, as contracts see them.
pub open spec fn tfs_view(tfs: Seq<Transformed<Arc<LogicalPlan>>>) -> Seq<Transformed<PlanV>> {
    Seq::new(tfs.len(), |i: int| tf_view(tfs[i]))
}

/// A one-child node after a pass over its child: rebuilt over the new child
/// when the child changed, itself when it did not.
pub open spec fn rebuild(node: PlanV, tf: Transformed<PlanV>) -> Transformed<PlanV> {
    match tf {
        Transformed::Yes(n) => Transformed::Yes(node.with_input(n)),
        Transformed::No(_) => Transformed::No(node),
    }
}

/// A relationship node after a pass over its three children.
pub open spec fn rebuild_rel(
    node: PlanV,
    l: Transformed<PlanV>,
    c: Transformed<PlanV>,
    r: Transformed<PlanV>,
) -> Transformed<PlanV> {
    if l is Yes || c is Yes || r is Yes {
        Transformed::Yes(node.with_children(l.plan(), c.plan(), r.plan()))
    } else {
        Transformed::No(node)
    }
}

/// A union after a pass over its inputs.
pub open spec fn rebuild_union(node: PlanV, tfs: Seq<Transformed<PlanV>>) -> Transformed<PlanV> {
    if exists|i: int| 0 <= i < tfs.len() && tfs[i] is Yes {
        Transformed::Yes(PlanV::Union { inputs: Seq::new(tfs.len(), |i: int| tfs[i].plan()) })
    } else {
        Transformed::No(node)
    }
}

/// The child of a one-child node; `None` for the other node kinds.
pub fn single_input(plan: &Arc<LogicalPlan>) -> (r: Option<Arc<LogicalPlan>>)
    ensures
        r is Some == plan@.has_input(),
        r matches Some(c) ==> (*c)@ == plan@.input() && decreases_to!(*plan => c),
{
    match &**plan {
        LogicalPlan::GraphNode(n) => Some(n.input.clone()),
        LogicalPlan::Filter(n) => Some(n.input.clone()),
        LogicalPlan::Projection(n) => Some(n.input.clone()),
        LogicalPlan::GroupBy(n) => Some(n.input.clone()),
        LogicalPlan::OrderBy(n) => Some(n.input.clone()),
        LogicalPlan::Skip(n) => Some(n.input.clone()),
        LogicalPlan::Limit(n) => Some(n.input.clone()),
        LogicalPlan::Cte(n) => Some(n.input.clone()),
        LogicalPlan::GraphJoins(n) => Some(n.input.clone()),
        _ => None,
    }
}

/// Rebuilds a one-child node over the outcome of a pass on its child.
pub fn rebuild_single(plan: &Arc<LogicalPlan>, input_tf: Transformed<Arc<LogicalPlan>>) -> (r:
    Transformed<Arc<LogicalPlan>>)
    requires
        plan@.has_input(),
    ensures
        tf_view(r) == rebuild(plan@, tf_view(input_tf)),
        r is No ==> r.plan() == *plan,
{
    match &**plan {
        LogicalPlan::GraphNode(n) => n.rebuild_or_clone(input_tf, plan.clone()),
        LogicalPlan::Filter(n) => n.rebuild_or_clone(input_tf, plan.clone()),
        LogicalPlan::Projection(n) => n.rebuild_or_clone(input_tf, plan.clone()),
        LogicalPlan::GroupBy(n) => n.rebuild_or_clone(input_tf, plan.clone()),
        LogicalPlan::OrderBy(n) => n.rebuild_or_clone(input_tf, plan.clone()),
        LogicalPlan::Skip(n) => n.rebuild_or_clone(input_tf, plan.clone()),
        LogicalPlan::Limit(n) => n.rebuild_or_clone(input_tf, plan.clone()),
        LogicalPlan::Cte(n) => n.rebuild_or_clone(input_tf, plan.clone()),
        LogicalPlan::GraphJoins(n) => n.rebuild_or_clone(input_tf, plan.clone()),
        _ => Transformed::No(plan.clone()),
    }
}

/// Rebuilds a relationship node over the outcomes of a pass on its children.
pub fn rebuild_graph_rel(
    plan: &Arc<LogicalPlan>,
    left_tf: Transformed<Arc<LogicalPlan>>,
    center_tf: Transformed<Arc<LogicalPlan>>,
    right_tf: Transformed<Arc<LogicalPlan>>,
) -> (r: Transformed<Arc<LogicalPlan>>)
    requires
        plan@ is GraphRel,
    ensures
        tf_view(r) == rebuild_rel(plan@, tf_view(left_tf), tf_view(center_tf), tf_view(right_tf)),
        r is No ==> r.plan() == *plan,
{
    match &**plan {
        LogicalPlan::GraphRel(rel) => rel.rebuild_or_clone(
            left_tf,
            center_tf,
            right_tf,
            plan.clone(),
        ),
        _ => Transformed::No(plan.clone()),
    }
}

/// Rebuilds a union over the outcomes of a pass on its inputs.
pub fn rebuild_union_node(plan: &Arc<LogicalPlan>, inputs_tf: Vec<Transformed<Arc<LogicalPlan>>>) -> (r:
    Transformed<Arc<LogicalPlan>>)
    requires
        plan@ is Union,
    ensures
        tf_view(r) == rebuild_union(plan@, tfs_view(inputs_tf@)),
        r is No ==> r.plan() == *plan,
{
    proof {
        let tfs = tfs_view(inputs_tf@);
        if any_yes(inputs_tf@) {
            let k = choose|k: int| 0 <= k < inputs_tf@.len() && inputs_tf@[k] is Yes;
            assert(tfs[k] is Yes);
        }
        if exists|i: int| 0 <= i < tfs.len() && tfs[i] is Yes {
            let k = choose|i: int| 0 <= i < tfs.len() && tfs[i] is Yes;
            assert(inputs_tf@[k] is Yes);
        }
        assert(carried_views(inputs_tf@) =~= Seq::new(tfs.len(), |i: int| tfs[i].plan()));
    }
    match &**plan {
        LogicalPlan::Union(u) => u.rebuild_or_clone(inputs_tf, plan.clone()),
        _ => Transformed::No(plan.clone()),
    }
}

/// The number of inputs of a union; 0 for the other node kinds.
pub fn union_len(plan: &Arc<LogicalPlan>) -> (n: usize)
    ensures
        plan@ matches PlanV::Union { inputs } ==> n == inputs.len(),
        !(plan@ is Union) ==> n == 0,
{
    broadcast use lemma_union_view;

    match &**plan {
        LogicalPlan::Union(u) => u.inputs.len(),
        _ => 0,
    }
}

/// The `i`-th input of a union.
pub fn union_input(plan: &Arc<LogicalPlan>, i: usize) -> (r: Arc<LogicalPlan>)
    requires
        plan@ matches PlanV::Union { inputs } && i < inputs.len(),
    ensures
        plan@ matches PlanV::Union { inputs } && (*r)@ == inputs[i as int],
        decreases_to!(*plan => r),
{
    broadcast use lemma_union_view;

    match &**plan {
        LogicalPlan::Union(u) => {
            assert(decreases_to!(u.inputs => u.inputs[i as int]));
            u.inputs[i].clone()
        },
        _ => plan.clone(),
    }
}

/// The alias, the left connection and the right connection of every
/// relationship of a plan, a relationship before its children and the
/// children from left to right. The inputs of a union are left out.
pub open spec fn rel_connections(p: PlanV) -> Seq<(Text, Text, Text)>
    decreases p,
{
    match p {
        PlanV::Empty => Seq::empty(),
        PlanV::Scan { .. } => Seq::empty(),
        PlanV::Union { .. } => Seq::empty(),
        PlanV::GraphRel { left, center, right, alias, left_connection, right_connection, .. } => {
            seq![(alias, left_connection, right_connection)] + rel_connections(*left)
                + rel_connections(*center) + rel_connections(*right)
        },
        _ => rel_connections(p.input()),
    }
}

/// The triples as contracts see them.
pub open spec fn triples_view(s: Seq<(String, String, String)>) -> Seq<(Text, Text, Text)> {
    Seq::new(s.len(), |i: int| (s[i].0@, s[i].1@, s[i].2@))
}

fn collect_graph_rels(plan: &LogicalPlan, out: &mut Vec<(String, String, String)>)
    ensures
        triples_view(final(out)@) == triples_view(old(out)@) + rel_connections(plan@),
    decreases plan,
{
    match plan {
        LogicalPlan::Empty => {
            assert(triples_view(out@) =~= triples_view(out@) + rel_connections(plan@));
        },
        LogicalPlan::Scan(_) => {
            assert(triples_view(out@) =~= triples_view(out@) + rel_connections(plan@));
        },
        LogicalPlan::Union(_) => {
            assert(triples_view(out@) =~= triples_view(out@) + rel_connections(plan@));
        },
        LogicalPlan::GraphRel(rel) => {
            let ghost before = triples_view(out@);
            out.push(
                (rel.alias.clone(), rel.left_connection.clone(), rel.right_connection.clone()),
            );
            assert(triples_view(out@) =~= before + seq![
                (rel.alias@, rel.left_connection@, rel.right_connection@),
            ]);
            collect_graph_rels(&*rel.left, out);
            collect_graph_rels(&*rel.center, out);
            collect_graph_rels(&*rel.right, out);
            assert(triples_view(out@) =~= before + rel_connections(plan@));
        },
        _ => {
            collect_graph_rels(plan.input_ref().unwrap(), out);
        },
    }
}

impl LogicalPlan {
    /// The alias and the two connections of every relationship of the
    /// plan, a relationship before its children.
    pub fn graph_rels(&self) -> (r: Vec<(String, String, String)>)
        ensures
            triples_view(r@) == rel_connections(self@),
    {
        let mut out: Vec<(String, String, String)> = Vec::new();
        assert(triples_view(out@) =~= Seq::empty());
        collect_graph_rels(self, &mut out);
        assert(triples_view(out@) =~= rel_connections(self@));
        out
    }

    /// The child of a one-child node; `None` for the other node kinds.
    pub fn input_ref(&self) -> (r: Option<&LogicalPlan>)
        ensures
            r is Some == self@.has_input(),
            r matches Some(c) ==> c@ == self@.input() && decreases_to!(self => c),
    {
        match self {
            LogicalPlan::GraphNode(n) => Some(&*n.input),
            LogicalPlan::Filter(n) => Some(&*n.input),
            LogicalPlan::Projection(n) => Some(&*n.input),
            LogicalPlan::GroupBy(n) => Some(&*n.input),
            LogicalPlan::OrderBy(n) => Some(&*n.input),
            LogicalPlan::Skip(n) => Some(&*n.input),
            LogicalPlan::Limit(n) => Some(&*n.input),
            LogicalPlan::Cte(n) => Some(&*n.input),
            LogicalPlan::GraphJoins(n) => Some(&*n.input),
            _ => None,
        }
    }
}

} // verus!
