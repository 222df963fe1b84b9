//! The render plan: the relational snapshot of a query that the SQL
//! emitter walks.
use vstd::prelude::*;
use crate::expr::{ColumnAlias, ExprV, PlanExpr};
use crate::logical_plan::{Join, JoinV, OrderByItem, OrderByItemV};
use crate::views::{opt_view, seq_view, Text};

pub mod plan_builder;
pub mod to_sql;

verus! {

/// Turns a part of a render plan into SQL text.
pub trait ToSql {
    /// The SQL text of the part.
    spec fn sql(&self) -> Text;

    fn to_sql(&self) -> (s: String)
        ensures
            s@ == self.sql(),
    ;
}

/// One item of a `SELECT` list.
#[derive(Debug, Clone, PartialEq)]
pub struct SelectItem {
    pub expression: PlanExpr,
    pub col_alias: Option<ColumnAlias>,
}

#[derive(Debug, Clone, PartialEq)]
pub struct SelectItems(pub Vec<SelectItem>);

/// The table of a `FROM` clause.
#[derive(Debug, Clone, PartialEq)]
pub struct FromTable {
    pub table_name: String,
    pub table_alias: Option<String>,
}

#[derive(Debug, Clone, PartialEq)]
pub struct FromTableItem(pub Option<FromTable>);

#[derive(Debug, Clone, PartialEq)]
pub struct FilterItems(pub Option<PlanExpr>);

#[derive(Debug, Clone, PartialEq)]
pub struct GroupByExpressions(pub Vec<PlanExpr>);

#[derive(Debug, Clone, PartialEq)]
pub struct JoinItems(pub Vec<Join>);

#[derive(Debug, PartialEq)]
pub struct CteItems(pub Vec<Cte>);

/// A named inline view of a query.
#[derive(Debug, PartialEq)]
pub struct Cte {
    pub cte_name: String,
    pub cte_plan: RenderPlan,
}

#[derive(Debug, PartialEq)]
pub struct UnionItems(pub Vec<RenderPlan>);

#[derive(Debug, Clone, Copy, PartialEq)]
pub struct LimitItem(pub Option<i64>);

#[derive(Debug, Clone, Copy, PartialEq)]
pub struct SkipItem(pub Option<i64>);

#[derive(Debug, Clone, PartialEq)]
pub struct OrderByItems(pub Vec<OrderByItem>);

/// A query as the SQL emitter sees it.
#[derive(Debug, PartialEq)]
pub struct RenderPlan {
    pub ctes: CteItems,
    pub select: SelectItems,
    pub from: FromTableItem,
    pub joins: JoinItems,
    pub filters: FilterItems,
    pub group_by: GroupByExpressions,
    pub order_by: OrderByItems,
    pub skip: SkipItem,
    pub limit: LimitItem,
    pub union: UnionItems,
}

pub ghost struct SelectItemV {
    pub expression: ExprV,
    pub col_alias: Option<Text>,
}

pub ghost struct FromTableV {
    pub table_name: Text,
    pub table_alias: Option<Text>,
}

pub ghost struct CteV {
    pub name: Text,
    pub plan: Box<RenderPlanV>,
}

/// The mathematical value of a render plan.
pub ghost struct RenderPlanV {
    pub ctes: Seq<CteV>,
    pub select: Seq<SelectItemV>,
    pub from: Option<FromTableV>,
    pub joins: Seq<JoinV>,
    pub filters: Option<ExprV>,
    pub group_by: Seq<ExprV>,
    pub order_by: Seq<OrderByItemV>,
    pub limit: Option<i64>,
    pub skip: Option<i64>,
    pub union: Seq<RenderPlanV>,
}

impl View for SelectItem {
    type V = SelectItemV;

    open spec fn view(&self) -> SelectItemV {
        SelectItemV { expression: self.expression@, col_alias: opt_view(self.col_alias) }
    }
}

impl View for FromTable {
    type V = FromTableV;

    open spec fn view(&self) -> FromTableV {
        FromTableV { table_name: self.table_name@, table_alias: opt_view(self.table_alias) }
    }
}

/// The views of a sequence of CTEs, built from the left.
pub open spec fn ctes_view(s: Seq<Cte>) -> Seq<CteV>
    decreases s,
{
    if s.len() == 0 {
        Seq::empty()
    } else {
        ctes_view(s.drop_last()).push(s.last()@)
    }
}

/// The views of a sequence of render plans, built from the left.
pub open spec fn render_plans_view(s: Seq<RenderPlan>) -> Seq<RenderPlanV>
    decreases s,
{
    if s.len() == 0 {
        Seq::empty()
    } else {
        render_plans_view(s.drop_last()).push(s.last()@)
    }
}

impl View for Cte {
    type V = CteV;

    open spec fn view(&self) -> CteV
        decreases self,
    {
        CteV { name: self.cte_name@, plan: Box::new(self.cte_plan@) }
    }
}

impl View for RenderPlan {
    type V = RenderPlanV;

    open spec fn view(&self) -> RenderPlanV
        decreases self,
    {
        RenderPlanV {
            ctes: ctes_view(self.ctes.0@),
            select: seq_view(self.select.0@),
            from: opt_view(self.from.0),
            joins: seq_view(self.joins.0@),
            filters: opt_view(self.filters.0),
            group_by: seq_view(self.group_by.0@),
            order_by: seq_view(self.order_by.0@),
            limit: self.limit.0,
            skip: self.skip.0,
            union: render_plans_view(self.union.0@),
        }
    }
}

pub proof fn lemma_ctes_view(s: Seq<Cte>)
    ensures
        ctes_view(s) == seq_view(s),
    decreases s.len(),
{
    if s.len() > 0 {
        lemma_ctes_view(s.drop_last());
        assert(ctes_view(s) == ctes_view(s.drop_last()).push(s.last()@));
        assert(seq_view(s.drop_last()).push(s.last()@) =~= seq_view(s));
    } else {
        assert(ctes_view(s) =~= seq_view(s));
    }
}

pub proof fn lemma_render_plans_view(s: Seq<RenderPlan>)
    ensures
        render_plans_view(s) == seq_view(s),
    decreases s.len(),
{
    if s.len() > 0 {
        lemma_render_plans_view(s.drop_last());
        assert(render_plans_view(s) == render_plans_view(s.drop_last()).push(s.last()@));
        assert(seq_view(s.drop_last()).push(s.last()@) =~= seq_view(s));
    } else {
        assert(render_plans_view(s) =~= seq_view(s));
    }
}

/// The view of a render plan in terms of the element-wise views of its lists.
pub broadcast proof fn lemma_render_plan_view(p: RenderPlan)
    ensures
        (#[trigger] p.view()) == (RenderPlanV {
            ctes: seq_view(p.ctes.0@),
            select: seq_view(p.select.0@),
            from: opt_view(p.from.0),
            joins: seq_view(p.joins.0@),
            filters: opt_view(p.filters.0),
            group_by: seq_view(p.group_by.0@),
            order_by: seq_view(p.order_by.0@),
            limit: p.limit.0,
            skip: p.skip.0,
            union: seq_view(p.union.0@),
        }),
{
    lemma_ctes_view(p.ctes.0@);
    lemma_render_plans_view(p.union.0@);
}

/// The names of the CTEs of a render plan, in order.
pub open spec fn cte_names(ctes: Seq<CteV>) -> Seq<Text> {
    Seq::new(ctes.len(), |i: int| ctes[i].name)
}

} // verus!
