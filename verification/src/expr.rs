//! Expressions of the logical plan and of the render plan, with their
//! mathematical views.
use vstd::prelude::*;
use crate::views::{seq_view, Text};

verus! {

/// Direction of a relationship pattern.
#[derive(Debug, Clone, Copy, PartialEq, Eq, Structural)]
pub enum Direction {
    Outgoing,
    Incoming,
    Either,
}

impl Direction {
    /// The opposite direction; `Either` is its own opposite.
    pub open spec fn reversed(self) -> Direction {
        match self {
            Direction::Incoming => Direction::Outgoing,
            Direction::Outgoing => Direction::Incoming,
            Direction::Either => Direction::Either,
        }
    }

    pub fn reverse(self) -> (r: Direction)
        ensures
            r == self.reversed(),
    {
        match self {
            Direction::Incoming => Direction::Outgoing,
            Direction::Outgoing => Direction::Incoming,
            Direction::Either => Direction::Either,
        }
    }

    /// The lower-case name used in index table names: `incoming`, `outgoing`, `either`.
    pub open spec fn name(self) -> Text {
        match self {
            Direction::Incoming => "incoming"@,
            Direction::Outgoing => "outgoing"@,
            Direction::Either => "either"@,
        }
    }

    pub fn as_str(self) -> (s: &'static str)
        ensures
            s@ == self.name(),
    {
        match self {
            Direction::Incoming => "incoming",
            Direction::Outgoing => "outgoing",
            Direction::Either => "either",
        }
    }
}

/// Operators of an operator application.
#[derive(Debug, Clone, Copy, PartialEq, Eq, Structural)]
pub enum Operator {
    Addition,
    Subtraction,
    Multiplication,
    Division,
    ModuloDivision,
    Exponentiation,
    Equal,
    NotEqual,
    LessThan,
    GreaterThan,
    LessThanEqual,
    GreaterThanEqual,
    And,
    Or,
    In,
    NotIn,
    Not,
    Distinct,
    IsNull,
    IsNotNull,
}

/// A literal value. A floating-point literal is carried as its decimal text.
#[derive(Debug, Clone, PartialEq)]
pub enum Literal {
    Integer(i64),
    Float(String),
    Boolean(bool),
    String(String),
    Null,
}

pub ghost enum LiteralV {
    Integer(i64),
    Float(Text),
    Boolean(bool),
    String(Text),
    Null,
}

impl View for Literal {
    type V = LiteralV;

    open spec fn view(&self) -> LiteralV {
        match self {
            Literal::Integer(i) => LiteralV::Integer(*i),
            Literal::Float(s) => LiteralV::Float(s@),
            Literal::Boolean(b) => LiteralV::Boolean(*b),
            Literal::String(s) => LiteralV::String(s@),
            Literal::Null => LiteralV::Null,
        }
    }
}

impl Literal {
    pub fn deep_clone(&self) -> (r: Literal)
        ensures
            r@ == self@,
    {
        match self {
            Literal::Integer(i) => Literal::Integer(*i),
            Literal::Float(s) => Literal::Float(s.clone()),
            Literal::Boolean(b) => Literal::Boolean(*b),
            Literal::String(s) => Literal::String(s.clone()),
            Literal::Null => Literal::Null,
        }
    }

    pub fn same(&self, other: &Literal) -> (r: bool)
        ensures
            r == (self@ == other@),
    {
        match (self, other) {
            (Literal::Integer(a), Literal::Integer(b)) => *a == *b,
            (Literal::Float(a), Literal::Float(b)) => *a == *b,
            (Literal::Boolean(a), Literal::Boolean(b)) => *a == *b,
            (Literal::String(a), Literal::String(b)) => *a == *b,
            (Literal::Null, Literal::Null) => true,
            _ => false,
        }
    }
}

/// An inline `{key: value}` pair of a pattern.
#[derive(Debug, Clone, PartialEq)]
pub struct PropertyKVPair {
    pub key: String,
    pub value: Literal,
}

/// A property of a node or relationship pattern.
#[derive(Debug, Clone, PartialEq)]
pub enum Property {
    PropertyKV(PropertyKVPair),
    Param(String),
}

pub ghost enum PropertyV {
    PropertyKV { key: Text, value: LiteralV },
    Param(Text),
}

impl View for Property {
    type V = PropertyV;

    open spec fn view(&self) -> PropertyV {
        match self {
            Property::PropertyKV(kv) => PropertyV::PropertyKV { key: kv.key@, value: kv.value@ },
            Property::Param(p) => PropertyV::Param(p@),
        }
    }
}

impl Property {
    pub fn deep_clone(&self) -> (r: Property)
        ensures
            r@ == self@,
    {
        match self {
            Property::PropertyKV(kv) => Property::PropertyKV(
                PropertyKVPair { key: kv.key.clone(), value: kv.value.deep_clone() },
            ),
            Property::Param(p) => Property::Param(p.clone()),
        }
    }
}

/// Copies of the properties of `v`, in order.
pub fn clone_properties(v: &Vec<Property>) -> (out: Vec<Property>)
    ensures
        seq_view(out@) == seq_view(v@),
{
    let mut out: Vec<Property> = Vec::new();
    let mut i: usize = 0;
    while i < v.len()
        invariant
            i <= v.len(),
            seq_view(out@) == seq_view(v@).take(i as int),
        decreases v.len() - i,
    {
        let c = v[i].deep_clone();
        let ghost prev = out@;
        out.push(c);
        assert(seq_view(out@) =~= seq_view(prev).push(c@));
        assert(seq_view(v@).take(i + 1) =~= seq_view(v@).take(i as int).push(v@[i as int]@));
        i += 1;
    }
    assert(seq_view(v@).take(v.len() as int) =~= seq_view(v@));
    out
}

/// The alias of a table in a query, such as `u` in `(u:User)`.
#[derive(Debug, Clone, PartialEq)]
pub struct TableAlias(pub String);

/// The alias given to a projected column.
#[derive(Debug, Clone, PartialEq)]
pub struct ColumnAlias(pub String);

/// A column name without a table prefix.
#[derive(Debug, Clone, PartialEq)]
pub struct Column(pub String);

impl View for TableAlias {
    type V = Text;

    open spec fn view(&self) -> Text {
        self.0@
    }
}

impl View for ColumnAlias {
    type V = Text;

    open spec fn view(&self) -> Text {
        self.0@
    }
}

impl View for Column {
    type V = Text;

    open spec fn view(&self) -> Text {
        self.0@
    }
}

/// Access to a column of an aliased table: `alias.column`.
#[derive(Debug, Clone, PartialEq)]
pub struct PropertyAccess {
    pub table_alias: TableAlias,
    pub column: Column,
}

pub ghost struct PropertyAccessV {
    pub table_alias: Text,
    pub column: Text,
}

impl View for PropertyAccess {
    type V = PropertyAccessV;

    open spec fn view(&self) -> PropertyAccessV {
        PropertyAccessV { table_alias: self.table_alias@, column: self.column@ }
    }
}

impl PropertyAccess {
    pub fn deep_clone(&self) -> (r: PropertyAccess)
        ensures
            r@ == self@,
    {
        PropertyAccess {
            table_alias: TableAlias(self.table_alias.0.clone()),
            column: Column(self.column.0.clone()),
        }
    }
}

/// An operator applied to operands.
#[derive(Debug, Clone, PartialEq)]
pub struct OperatorApplication {
    pub operator: Operator,
    pub operands: Vec<PlanExpr>,
}

/// A call of a scalar function.
#[derive(Debug, Clone, PartialEq)]
pub struct ScalarFnCall {
    pub name: String,
    pub args: Vec<PlanExpr>,
}

/// A call of an aggregate function (`count`, `min`, `max`, `avg`, `sum`).
#[derive(Debug, Clone, PartialEq)]
pub struct AggregateFnCall {
    pub name: String,
    pub args: Vec<PlanExpr>,
}

/// The body of an `IN` subquery: `SELECT column FROM table_name`.
#[derive(Debug, Clone, PartialEq)]
pub struct SubquerySubPlan {
    pub table_name: String,
    pub column: String,
}

/// `expr IN (SELECT column FROM table_name)`.
#[derive(Debug, PartialEq)]
pub struct InSubquery {
    pub expr: Box<PlanExpr>,
    pub subplan: SubquerySubPlan,
}

/// An expression of a plan.
#[derive(Debug, PartialEq)]
pub enum PlanExpr {
    /// A literal, such as a number, string, boolean, or null.
    Literal(Literal),
    Star,
    /// A table alias, such as `p` in `RETURN p`.
    TableAlias(TableAlias),
    ColumnAlias(ColumnAlias),
    /// A column without a table prefix, as used inside a per-table filter.
    Column(Column),
    /// A parameter, such as `$param`.
    Parameter(String),
    /// A list literal.
    List(Vec<PlanExpr>),
    AggregateFnCall(AggregateFnCall),
    ScalarFnCall(ScalarFnCall),
    PropertyAccessExp(PropertyAccess),
    OperatorApplicationExp(OperatorApplication),
    InSubquery(InSubquery),
}

/// Expressions of a render plan have the same shape as those of a logical plan.
pub type RenderExpr = PlanExpr;

pub ghost struct OpAppV {
    pub operator: Operator,
    pub operands: Seq<ExprV>,
}

pub ghost struct FnCallV {
    pub name: Text,
    pub args: Seq<ExprV>,
}

pub ghost struct InSubqueryV {
    pub expr: Box<ExprV>,
    pub table_name: Text,
    pub column: Text,
}

/// The mathematical value of a `PlanExpr`.
pub ghost enum ExprV {
    Literal(LiteralV),
    Star,
    TableAlias(Text),
    ColumnAlias(Text),
    Column(Text),
    Parameter(Text),
    List(Seq<ExprV>),
    AggregateFnCall(FnCallV),
    ScalarFnCall(FnCallV),
    PropertyAccess(PropertyAccessV),
    OperatorApplication(OpAppV),
    InSubquery(InSubqueryV),
}

/// The views of a sequence of expressions, built from the left.
pub open spec fn exprs_view(s: Seq<PlanExpr>) -> Seq<ExprV>
    decreases s,
{
    if s.len() == 0 {
        Seq::empty()
    } else {
        exprs_view(s.drop_last()).push(s.last()@)
    }
}

impl View for PlanExpr {
    type V = ExprV;

    open spec fn view(&self) -> ExprV
        decreases self,
    {
        match self {
            PlanExpr::Literal(l) => ExprV::Literal(l@),
            PlanExpr::Star => ExprV::Star,
            PlanExpr::TableAlias(a) => ExprV::TableAlias(a@),
            PlanExpr::ColumnAlias(a) => ExprV::ColumnAlias(a@),
            PlanExpr::Column(c) => ExprV::Column(c@),
            PlanExpr::Parameter(p) => ExprV::Parameter(p@),
            PlanExpr::List(v) => ExprV::List(exprs_view(v@)),
            PlanExpr::AggregateFnCall(f) => ExprV::AggregateFnCall(
                FnCallV { name: f.name@, args: exprs_view(f.args@) },
            ),
            PlanExpr::ScalarFnCall(f) => ExprV::ScalarFnCall(
                FnCallV { name: f.name@, args: exprs_view(f.args@) },
            ),
            PlanExpr::PropertyAccessExp(pa) => ExprV::PropertyAccess(pa@),
            PlanExpr::OperatorApplicationExp(op) => ExprV::OperatorApplication(
                OpAppV { operator: op.operator, operands: exprs_view(op.operands@) },
            ),
            PlanExpr::InSubquery(sq) => ExprV::InSubquery(
                InSubqueryV {
                    expr: Box::new((*sq.expr)@),
                    table_name: sq.subplan.table_name@,
                    column: sq.subplan.column@,
                },
            ),
        }
    }
}

impl View for OperatorApplication {
    type V = OpAppV;

    open spec fn view(&self) -> OpAppV {
        OpAppV { operator: self.operator, operands: seq_view(self.operands@) }
    }
}

impl View for ScalarFnCall {
    type V = FnCallV;

    open spec fn view(&self) -> FnCallV {
        FnCallV { name: self.name@, args: seq_view(self.args@) }
    }
}

impl View for AggregateFnCall {
    type V = FnCallV;

    open spec fn view(&self) -> FnCallV {
        FnCallV { name: self.name@, args: seq_view(self.args@) }
    }
}

impl View for InSubquery {
    type V = InSubqueryV;

    open spec fn view(&self) -> InSubqueryV {
        InSubqueryV {
            expr: Box::new((*self.expr)@),
            table_name: self.subplan.table_name@,
            column: self.subplan.column@,
        }
    }
}

/// The left-built view of a sequence of expressions is its element-wise view.
pub proof fn lemma_exprs_view(s: Seq<PlanExpr>)
    ensures
        exprs_view(s) == seq_view(s),
    decreases s.len(),
{
    if s.len() > 0 {
        lemma_exprs_view(s.drop_last());
        assert(exprs_view(s) == exprs_view(s.drop_last()).push(s.last()@));
        assert(seq_view(s.drop_last()).push(s.last()@) =~= seq_view(s));
    } else {
        assert(exprs_view(s) =~= seq_view(s));
    }
}

/// The view of an expression that holds a list of expressions, in terms of
/// the element-wise view of the list.
pub broadcast proof fn lemma_expr_view(e: PlanExpr)
    ensures
        match e {
            PlanExpr::List(v) => (#[trigger] e.view()) == ExprV::List(seq_view(v@)),
            PlanExpr::AggregateFnCall(f) => e.view() == ExprV::AggregateFnCall(f@),
            PlanExpr::ScalarFnCall(f) => e.view() == ExprV::ScalarFnCall(f@),
            PlanExpr::OperatorApplicationExp(op) => e.view() == ExprV::OperatorApplication(op@),
            _ => true,
        },
{
    match e {
        PlanExpr::List(v) => {
            lemma_exprs_view(v@);
        },
        PlanExpr::AggregateFnCall(f) => {
            lemma_exprs_view(f.args@);
        },
        PlanExpr::ScalarFnCall(f) => {
            lemma_exprs_view(f.args@);
        },
        PlanExpr::OperatorApplicationExp(op) => {
            lemma_exprs_view(op.operands@);
        },
        _ => {},
    }
}

impl PlanExpr {
    /// A copy with the same view.
    pub fn deep_clone(&self) -> (r: PlanExpr)
        ensures
            r@ == self@,
        decreases self,
    {
        broadcast use lemma_expr_view;

        match self {
            PlanExpr::Literal(l) => PlanExpr::Literal(l.deep_clone()),
            PlanExpr::Star => PlanExpr::Star,
            PlanExpr::TableAlias(a) => PlanExpr::TableAlias(TableAlias(a.0.clone())),
            PlanExpr::ColumnAlias(a) => PlanExpr::ColumnAlias(ColumnAlias(a.0.clone())),
            PlanExpr::Column(c) => PlanExpr::Column(Column(c.0.clone())),
            PlanExpr::Parameter(p) => PlanExpr::Parameter(p.clone()),
            PlanExpr::List(v) => PlanExpr::List(clone_exprs(v)),
            PlanExpr::AggregateFnCall(f) => PlanExpr::AggregateFnCall(
                AggregateFnCall { name: f.name.clone(), args: clone_exprs(&f.args) },
            ),
            PlanExpr::ScalarFnCall(f) => PlanExpr::ScalarFnCall(
                ScalarFnCall { name: f.name.clone(), args: clone_exprs(&f.args) },
            ),
            PlanExpr::PropertyAccessExp(pa) => PlanExpr::PropertyAccessExp(pa.deep_clone()),
            PlanExpr::OperatorApplicationExp(op) => PlanExpr::OperatorApplicationExp(
                OperatorApplication { operator: op.operator, operands: clone_exprs(&op.operands) },
            ),
            PlanExpr::InSubquery(sq) => PlanExpr::InSubquery(
                InSubquery {
                    expr: Box::new(sq.expr.deep_clone()),
                    subplan: SubquerySubPlan {
                        table_name: sq.subplan.table_name.clone(),
                        column: sq.subplan.column.clone(),
                    },
                },
            ),
        }
    }

    /// Structural equality: `true` exactly when the two views are equal.
    pub fn same(&self, other: &PlanExpr) -> (r: bool)
        ensures
            r == (self@ == other@),
        decreases self,
    {
        broadcast use lemma_expr_view;

        match (self, other) {
            (PlanExpr::Literal(a), PlanExpr::Literal(b)) => a.same(b),
            (PlanExpr::Star, PlanExpr::Star) => true,
            (PlanExpr::TableAlias(a), PlanExpr::TableAlias(b)) => a.0 == b.0,
            (PlanExpr::ColumnAlias(a), PlanExpr::ColumnAlias(b)) => a.0 == b.0,
            (PlanExpr::Column(a), PlanExpr::Column(b)) => a.0 == b.0,
            (PlanExpr::Parameter(a), PlanExpr::Parameter(b)) => *a == *b,
            (PlanExpr::List(a), PlanExpr::List(b)) => exprs_same(a, b),
            (PlanExpr::AggregateFnCall(a), PlanExpr::AggregateFnCall(b)) => {
                a.name == b.name && exprs_same(&a.args, &b.args)
            },
            (PlanExpr::ScalarFnCall(a), PlanExpr::ScalarFnCall(b)) => {
                a.name == b.name && exprs_same(&a.args, &b.args)
            },
            (PlanExpr::PropertyAccessExp(a), PlanExpr::PropertyAccessExp(b)) => {
                a.table_alias.0 == b.table_alias.0 && a.column.0 == b.column.0
            },
            (PlanExpr::OperatorApplicationExp(a), PlanExpr::OperatorApplicationExp(b)) => {
                a.operator == b.operator && exprs_same(&a.operands, &b.operands)
            },
            (PlanExpr::InSubquery(a), PlanExpr::InSubquery(b)) => {
                a.expr.same(&b.expr) && a.subplan.table_name == b.subplan.table_name
                    && a.subplan.column == b.subplan.column
            },
            _ => false,
        }
    }

    /// `true` for the expression `*`.
    pub fn is_star(&self) -> (r: bool)
        ensures
            r == (self@ is Star),
    {
        broadcast use lemma_expr_view;

        match self {
            PlanExpr::Star => true,
            _ => false,
        }
    }
}

/// Copies of the expressions of `v`, in order.
pub fn clone_exprs(v: &Vec<PlanExpr>) -> (out: Vec<PlanExpr>)
    ensures
        seq_view(out@) == seq_view(v@),
    decreases v,
{
    let mut out: Vec<PlanExpr> = Vec::new();
    let mut i: usize = 0;
    while i < v.len()
        invariant
            i <= v.len(),
            seq_view(out@) == seq_view(v@).take(i as int),
        decreases v.len() - i,
    {
        let c = v[i].deep_clone();
        let ghost prev = out@;
        out.push(c);
        assert(seq_view(out@) =~= seq_view(prev).push(c@));
        assert(seq_view(v@).take(i + 1) =~= seq_view(v@).take(i as int).push(v@[i as int]@));
        i += 1;
    }
    assert(seq_view(v@).take(v.len() as int) =~= seq_view(v@));
    out
}

/// Element-wise structural equality of two vectors of expressions.
pub fn exprs_same(a: &Vec<PlanExpr>, b: &Vec<PlanExpr>) -> (r: bool)
    ensures
        r == (seq_view(a@) == seq_view(b@)),
    decreases a,
{
    if a.len() != b.len() {
        assert(seq_view(a@).len() != seq_view(b@).len());
        return false;
    }
    let mut i: usize = 0;
    while i < a.len()
        invariant
            i <= a.len(),
            a.len() == b.len(),
            forall|j: int| 0 <= j < i ==> a@[j]@ == b@[j]@,
        decreases a.len() - i,
    {
        if !a[i].same(&b[i]) {
            assert(seq_view(a@)[i as int] != seq_view(b@)[i as int]);
            return false;
        }
        i += 1;
    }
    assert(seq_view(a@) =~= seq_view(b@));
    true
}

impl Clone for PlanExpr {
    fn clone(&self) -> (r: PlanExpr)
        ensures
            r@ == self@,
    {
        self.deep_clone()
    }
}

impl Clone for InSubquery {
    fn clone(&self) -> (r: InSubquery)
        ensures
            r@ == self@,
    {
        InSubquery {
            expr: Box::new(self.expr.deep_clone()),
            subplan: SubquerySubPlan {
                table_name: self.subplan.table_name.clone(),
                column: self.subplan.column.clone(),
            },
        }
    }
}

impl OperatorApplication {
    pub fn deep_clone(&self) -> (r: OperatorApplication)
        ensures
            r@ == self@,
    {
        OperatorApplication { operator: self.operator, operands: clone_exprs(&self.operands) }
    }
}

/// Copies of the operator applications of `v`, in order.
pub fn clone_op_apps(v: &Vec<OperatorApplication>) -> (out: Vec<OperatorApplication>)
    ensures
        seq_view(out@) == seq_view(v@),
{
    let mut out: Vec<OperatorApplication> = Vec::new();
    let mut i: usize = 0;
    while i < v.len()
        invariant
            i <= v.len(),
            seq_view(out@) == seq_view(v@).take(i as int),
        decreases v.len() - i,
    {
        let c = v[i].deep_clone();
        let ghost prev = out@;
        out.push(c);
        assert(seq_view(out@) =~= seq_view(prev).push(c@));
        assert(seq_view(v@).take(i + 1) =~= seq_view(v@).take(i as int).push(v@[i as int]@));
        i += 1;
    }
    assert(seq_view(v@).take(v.len() as int) =~= seq_view(v@));
    out
}

/// `true` when the expression is, or holds somewhere inside it, a call of
/// an aggregate function.
pub open spec fn has_aggregate(e: ExprV) -> bool
    decreases e,
{
    match e {
        ExprV::AggregateFnCall(_) => true,
        ExprV::List(s) => any_aggregate(s),
        ExprV::ScalarFnCall(f) => any_aggregate(f.args),
        ExprV::OperatorApplication(op) => any_aggregate(op.operands),
        ExprV::InSubquery(sq) => has_aggregate(*sq.expr),
        _ => false,
    }
}

/// `true` when one of the expressions holds a call of an aggregate function.
pub open spec fn any_aggregate(s: Seq<ExprV>) -> bool
    decreases s,
{
    if s.len() == 0 {
        false
    } else {
        any_aggregate(s.drop_last()) || has_aggregate(s.last())
    }
}

impl PlanExpr {
    /// `true` when the expression is, or holds somewhere inside it, a call
    /// of an aggregate function.
    pub fn contains_aggregate(&self) -> (r: bool)
        ensures
            r == has_aggregate(self@),
        decreases self,
    {
        proof {
            lemma_expr_view(*self);
        }
        match self {
            PlanExpr::AggregateFnCall(_) => true,
            PlanExpr::List(v) => exprs_contain_aggregate(v),
            PlanExpr::ScalarFnCall(f) => exprs_contain_aggregate(&f.args),
            PlanExpr::OperatorApplicationExp(op) => exprs_contain_aggregate(&op.operands),
            PlanExpr::InSubquery(sq) => sq.expr.contains_aggregate(),
            _ => false,
        }
    }
}

/// `true` when one of the expressions holds a call of an aggregate function.
pub fn exprs_contain_aggregate(v: &Vec<PlanExpr>) -> (r: bool)
    ensures
        r == any_aggregate(seq_view(v@)),
    decreases v,
{
    let mut i: usize = 0;
    let mut found = false;
    while i < v.len()
        invariant
            i <= v.len(),
            found == any_aggregate(seq_view(v@).take(i as int)),
        decreases v.len() - i,
    {
        proof {
            assert(seq_view(v@).take(i + 1).drop_last() =~= seq_view(v@).take(i as int));
        }
        if v[i].contains_aggregate() {
            found = true;
        }
        i += 1;
    }
    assert(seq_view(v@).take(v.len() as int) =~= seq_view(v@));
    found
}

} // verus!
