//! The abstract syntax tree of an openCypher query, as the parser hands it
//! over. Every pattern owns its endpoints by value; the same node in two
//! patterns is the same name.
use vstd::prelude::*;
use crate::expr::{Direction, Literal, LiteralV, Operator, Property, PropertyV};
use crate::views::{opt_view, seq_view, Text};

verus! {

#[derive(Debug, PartialEq)]
pub struct OpenCypherQueryAst {
    pub match_clause: Option<MatchClause>,
    pub with_clause: Option<WithClause>,
    pub where_clause: Option<WhereClause>,
    pub create_clause: Option<CreateClause>,
    pub create_node_table_clause: Option<CreateNodeTableClause>,
    pub create_rel_table_clause: Option<CreateRelTableClause>,
    pub set_clause: Option<SetClause>,
    pub remove_clause: Option<RemoveClause>,
    pub delete_clause: Option<DeleteClause>,
    pub return_clause: Option<ReturnClause>,
    pub order_by_clause: Option<OrderByClause>,
    pub skip_clause: Option<SkipClause>,
    pub limit_clause: Option<LimitClause>,
}

#[derive(Debug, PartialEq)]
pub struct MatchClause {
    pub path_patterns: Vec<PathPattern>,
}

#[derive(Debug, PartialEq)]
pub struct CreateClause {
    pub path_patterns: Vec<PathPattern>,
}

#[derive(Debug, PartialEq)]
pub struct CreateNodeTableClause {
    pub table_name: String,
    pub table_schema: Vec<ColumnSchema>,
    pub table_properties: Vec<Expression>,
}

#[derive(Debug, PartialEq)]
pub struct ColumnSchema {
    pub column_name: String,
    pub column_dtype: String,
    pub default_value: Option<Expression>,
}

#[derive(Debug, PartialEq)]
pub struct CreateRelTableClause {
    pub table_name: String,
    pub from: String,
    pub to: String,
    pub table_schema: Vec<ColumnSchema>,
    pub table_properties: Vec<Expression>,
}

#[derive(Debug, PartialEq)]
pub struct SetClause {
    pub set_items: Vec<OperatorApplication>,
}

#[derive(Debug, Clone, PartialEq)]
pub struct RemoveClause {
    pub remove_items: Vec<PropertyAccess>,
}

#[derive(Debug, PartialEq)]
pub struct DeleteClause {
    pub is_detach: bool,
    pub delete_items: Vec<Expression>,
}

#[derive(Debug, PartialEq)]
pub struct WhereClause {
    pub conditions: Expression,
}

#[derive(Debug, PartialEq)]
pub struct ReturnClause {
    pub return_items: Vec<ReturnItem>,
}

#[derive(Debug, PartialEq)]
pub struct ReturnItem {
    pub expression: Expression,
    pub alias: Option<String>,
}

#[derive(Debug, PartialEq)]
pub struct WithClause {
    pub with_items: Vec<WithItem>,
}

#[derive(Debug, PartialEq)]
pub struct WithItem {
    pub expression: Expression,
    pub alias: Option<String>,
}

#[derive(Debug, PartialEq)]
pub struct OrderByClause {
    pub order_by_items: Vec<OrderByItem>,
}

#[derive(Debug, PartialEq)]
pub struct OrderByItem {
    pub expression: Expression,
    pub order: OrerByOrder,
}

#[derive(Debug, Clone, Copy, PartialEq, Eq, Structural)]
pub enum OrerByOrder {
    Asc,
    Desc,
}

#[derive(Debug, Clone, Copy, PartialEq)]
pub struct SkipClause {
    pub skip_item: i64,
}

#[derive(Debug, Clone, Copy, PartialEq)]
pub struct LimitClause {
    pub limit_item: i64,
}

#[derive(Debug, Clone, PartialEq)]
pub enum PathPattern {
    /// A standalone node `(a)`.
    Node(NodePattern),
    /// Nodes with relationships `(a)-[:REL]->(b)`.
    ConnectedPattern(Vec<ConnectedPattern>),
}

#[derive(Debug, Clone, PartialEq)]
pub struct NodePattern {
    pub name: Option<String>,
    pub label: Option<String>,
    pub properties: Option<Vec<Property>>,
}

#[derive(Debug, Clone, PartialEq)]
pub struct ConnectedPattern {
    pub start_node: NodePattern,
    pub relationship: RelationshipPattern,
    pub end_node: NodePattern,
}

#[derive(Debug, Clone, PartialEq)]
pub struct RelationshipPattern {
    pub name: Option<String>,
    pub direction: Direction,
    pub label: Option<String>,
    pub properties: Option<Vec<Property>>,
}

#[derive(Debug, PartialEq)]
pub struct OperatorApplication {
    pub operator: Operator,
    pub operands: Vec<Expression>,
}

#[derive(Debug, Clone, PartialEq)]
pub struct PropertyAccess {
    pub base: String,
    pub key: String,
}

#[derive(Debug, PartialEq)]
pub struct FunctionCall {
    pub name: String,
    pub args: Vec<Expression>,
}

#[derive(Debug, PartialEq)]
pub enum Expression {
    /// A literal, such as a number, string, boolean, or null.
    Literal(Literal),
    /// A variable, such as `n`, or `*`.
    Variable(String),
    /// A parameter, such as `$param`.
    Parameter(String),
    /// A list literal.
    List(Vec<Expression>),
    /// A function call, such as `length(p)`.
    FunctionCallExp(FunctionCall),
    /// Access to a property, such as `n.name`.
    PropertyAccessExp(PropertyAccess),
    /// An operator application, such as `1 + 2`.
    OperatorApplicationExp(OperatorApplication),
}

/// The mathematical value of an expression of the syntax tree.
pub ghost enum AstExprV {
    Literal(LiteralV),
    Variable(Text),
    Parameter(Text),
    List(Seq<AstExprV>),
    FunctionCall { name: Text, args: Seq<AstExprV> },
    PropertyAccess { base: Text, key: Text },
    OperatorApplication { operator: Operator, operands: Seq<AstExprV> },
}

pub open spec fn ast_exprs_view(s: Seq<Expression>) -> Seq<AstExprV>
    decreases s,
{
    if s.len() == 0 {
        Seq::empty()
    } else {
        ast_exprs_view(s.drop_last()).push(s.last()@)
    }
}

impl View for Expression {
    type V = AstExprV;

    open spec fn view(&self) -> AstExprV
        decreases self,
    {
        match self {
            Expression::Literal(l) => AstExprV::Literal(l@),
            Expression::Variable(v) => AstExprV::Variable(v@),
            Expression::Parameter(p) => AstExprV::Parameter(p@),
            Expression::List(v) => AstExprV::List(ast_exprs_view(v@)),
            Expression::FunctionCallExp(f) => AstExprV::FunctionCall {
                name: f.name@,
                args: ast_exprs_view(f.args@),
            },
            Expression::PropertyAccessExp(pa) => AstExprV::PropertyAccess {
                base: pa.base@,
                key: pa.key@,
            },
            Expression::OperatorApplicationExp(op) => AstExprV::OperatorApplication {
                operator: op.operator,
                operands: ast_exprs_view(op.operands@),
            },
        }
    }
}

pub proof fn lemma_ast_exprs_view(s: Seq<Expression>)
    ensures
        ast_exprs_view(s) == seq_view(s),
    decreases s.len(),
{
    if s.len() > 0 {
        lemma_ast_exprs_view(s.drop_last());
        assert(ast_exprs_view(s) == ast_exprs_view(s.drop_last()).push(s.last()@));
        assert(seq_view(s.drop_last()).push(s.last()@) =~= seq_view(s));
    } else {
        assert(ast_exprs_view(s) =~= seq_view(s));
    }
}

/// The view of an expression that holds expressions, in terms of the
/// element-wise view of those.
pub broadcast proof fn lemma_ast_expr_view(e: Expression)
    ensures
        match e {
            Expression::List(v) => (#[trigger] e.view()) == AstExprV::List(seq_view(v@)),
            Expression::FunctionCallExp(f) => e.view() == (AstExprV::FunctionCall {
                name: f.name@,
                args: seq_view(f.args@),
            }),
            Expression::OperatorApplicationExp(op) => e.view() == (AstExprV::OperatorApplication {
                operator: op.operator,
                operands: seq_view(op.operands@),
            }),
            _ => true,
        },
{
    match e {
        Expression::List(v) => {
            lemma_ast_exprs_view(v@);
        },
        Expression::FunctionCallExp(f) => {
            lemma_ast_exprs_view(f.args@);
        },
        Expression::OperatorApplicationExp(op) => {
            lemma_ast_exprs_view(op.operands@);
        },
        _ => {},
    }
}

pub ghost struct ReturnItemV {
    pub expression: AstExprV,
    pub alias: Option<Text>,
}

impl View for ReturnItem {
    type V = ReturnItemV;

    open spec fn view(&self) -> ReturnItemV {
        ReturnItemV { expression: self.expression@, alias: opt_view(self.alias) }
    }
}

pub ghost struct AstOrderByItemV {
    pub expression: AstExprV,
    pub order: OrerByOrder,
}

impl View for OrderByItem {
    type V = AstOrderByItemV;

    open spec fn view(&self) -> AstOrderByItemV {
        AstOrderByItemV { expression: self.expression@, order: self.order }
    }
}

pub ghost struct NodePatternV {
    pub name: Option<Text>,
    pub label: Option<Text>,
    pub properties: Seq<PropertyV>,
}

impl View for NodePattern {
    type V = NodePatternV;

    open spec fn view(&self) -> NodePatternV {
        NodePatternV {
            name: opt_view(self.name),
            label: opt_view(self.label),
            properties: match self.properties {
                Some(p) => seq_view(p@),
                None => Seq::empty(),
            },
        }
    }
}

pub ghost struct RelationshipPatternV {
    pub name: Option<Text>,
    pub direction: Direction,
    pub label: Option<Text>,
    pub properties: Seq<PropertyV>,
}

impl View for RelationshipPattern {
    type V = RelationshipPatternV;

    open spec fn view(&self) -> RelationshipPatternV {
        RelationshipPatternV {
            name: opt_view(self.name),
            direction: self.direction,
            label: opt_view(self.label),
            properties: match self.properties {
                Some(p) => seq_view(p@),
                None => Seq::empty(),
            },
        }
    }
}

pub ghost struct ConnectedPatternV {
    pub start_node: NodePatternV,
    pub relationship: RelationshipPatternV,
    pub end_node: NodePatternV,
}

impl View for ConnectedPattern {
    type V = ConnectedPatternV;

    open spec fn view(&self) -> ConnectedPatternV {
        ConnectedPatternV {
            start_node: self.start_node@,
            relationship: self.relationship@,
            end_node: self.end_node@,
        }
    }
}

pub ghost enum PathPatternV {
    Node(NodePatternV),
    ConnectedPattern(Seq<ConnectedPatternV>),
}

impl View for PathPattern {
    type V = PathPatternV;

    open spec fn view(&self) -> PathPatternV {
        match self {
            PathPattern::Node(n) => PathPatternV::Node(n@),
            PathPattern::ConnectedPattern(v) => PathPatternV::ConnectedPattern(seq_view(v@)),
        }
    }
}

impl OrerByOrder {
    /// `ASC` or `DESC`.
    pub open spec fn text(self) -> Text {
        match self {
            OrerByOrder::Asc => "ASC"@,
            OrerByOrder::Desc => "DESC"@,
        }
    }

    pub fn as_str(self) -> (s: &'static str)
        ensures
            s@ == self.text(),
    {
        match self {
            OrerByOrder::Asc => "ASC",
            OrerByOrder::Desc => "DESC",
        }
    }
}

} // verus!
