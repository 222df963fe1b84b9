//! The SQL text of a render plan, clause by clause.
use vstd::prelude::*;
use vstd::string::StringExecFns;
use crate::expr::{
    lemma_expr_view, ExprV, Literal, LiteralV, OpAppV, Operator, OperatorApplication, PlanExpr,
};
use crate::logical_plan::{Join, JoinV, OrderByItem, OrderByItemV, OrderByOrder};
use crate::render_plan::{
    lemma_render_plan_view, Cte, CteItems, CteV, FilterItems, FromTable, FromTableItem,
    FromTableV, GroupByExpressions, JoinItems, LimitItem, OrderByItems, RenderPlan, RenderPlanV,
    SelectItem, SelectItemV, SelectItems, SkipItem, ToSql,
};
use crate::views::{opt_view, seq_view, Text};

verus! {

broadcast use lemma_expr_view, lemma_render_plan_view;

/// The decimal digit `d`.
pub open spec fn digit_text(d: int) -> Text {
    if d == 0 {
        "0"@
    } else if d == 1 {
        "1"@
    } else if d == 2 {
        "2"@
    } else if d == 3 {
        "3"@
    } else if d == 4 {
        "4"@
    } else if d == 5 {
        "5"@
    } else if d == 6 {
        "6"@
    } else if d == 7 {
        "7"@
    } else if d == 8 {
        "8"@
    } else {
        "9"@
    }
}

/// The decimal digits of a natural number, without leading zeros.
pub open spec fn nat_text(n: nat) -> Text
    decreases n,
{
    if n < 10 {
        digit_text(n as int)
    } else {
        nat_text(n / 10) + digit_text((n % 10) as int)
    }
}

/// The decimal text of an integer.
pub open spec fn int_text(i: int) -> Text {
    if i < 0 {
        "-"@ + nat_text((-i) as nat)
    } else {
        nat_text(i as nat)
    }
}

/// The SQL token of an operator.
pub open spec fn op_text(o: Operator) -> Text {
    match o {
        Operator::Addition => "+"@,
        Operator::Subtraction => "-"@,
        Operator::Multiplication => "*"@,
        Operator::Division => "/"@,
        Operator::ModuloDivision => "%"@,
        Operator::Exponentiation => "^"@,
        Operator::Equal => "="@,
        Operator::NotEqual => "<>"@,
        Operator::LessThan => "<"@,
        Operator::GreaterThan => ">"@,
        Operator::LessThanEqual => "<="@,
        Operator::GreaterThanEqual => ">="@,
        Operator::And => "AND"@,
        Operator::Or => "OR"@,
        Operator::In => "IN"@,
        Operator::NotIn => "NOT IN"@,
        Operator::Not => "NOT"@,
        Operator::Distinct => "DISTINCT"@,
        Operator::IsNull => "IS NULL"@,
        Operator::IsNotNull => "IS NOT NULL"@,
    }
}

/// The texts joined by a separator.
pub open spec fn joined_sql(parts: Seq<Text>, sep: Text) -> Text
    decreases parts.len(),
{
    if parts.len() == 0 {
        Seq::empty()
    } else if parts.len() == 1 {
        parts[0]
    } else {
        joined_sql(parts.drop_last(), sep) + sep + parts.last()
    }
}

/// The SQL text of a literal; a string literal is single-quoted.
pub open spec fn literal_sql(l: LiteralV) -> Text {
    match l {
        LiteralV::Integer(i) => int_text(i as int),
        LiteralV::Float(s) => s,
        LiteralV::Boolean(b) => if b {
            "true"@
        } else {
            "false"@
        },
        LiteralV::String(s) => "'"@ + s + "'"@,
        LiteralV::Null => "NULL"@,
    }
}

/// The SQL text of an operator over rendered operands: one operand takes
/// the operator as a prefix, two take it between them, more are joined by
/// it.
pub open spec fn op_app_sql(o: Operator, rendered: Seq<Text>) -> Text {
    if rendered.len() == 0 {
        Seq::empty()
    } else if rendered.len() == 1 {
        op_text(o) + " "@ + rendered[0]
    } else if rendered.len() == 2 {
        rendered[0] + " "@ + op_text(o) + " "@ + rendered[1]
    } else {
        joined_sql(rendered, " "@ + op_text(o) + " "@)
    }
}

/// The SQL text of an expression.
pub open spec fn expr_sql(e: ExprV) -> Text
    decreases e,
{
    match e {
        ExprV::Literal(l) => literal_sql(l),
        ExprV::Star => "*"@,
        ExprV::TableAlias(a) => a,
        ExprV::ColumnAlias(a) => a,
        ExprV::Column(a) => a,
        ExprV::Parameter(a) => a,
        ExprV::List(s) => "("@ + joined_sql(exprs_sql(s), ", "@) + ")"@,
        ExprV::ScalarFnCall(f) => f.name + "("@ + joined_sql(exprs_sql(f.args), ", "@) + ")"@,
        ExprV::AggregateFnCall(f) => f.name + "("@ + joined_sql(exprs_sql(f.args), ", "@) + ")"@,
        ExprV::PropertyAccess(pa) => pa.table_alias + "."@ + pa.column,
        ExprV::OperatorApplication(op) => op_app_sql(op.operator, exprs_sql(op.operands)),
        ExprV::InSubquery(sq) => expr_sql(*sq.expr) + " IN (SELECT "@ + sq.column + " FROM "@
            + sq.table_name + ")"@,
    }
}

/// The SQL texts of a sequence of expressions.
pub open spec fn exprs_sql(s: Seq<ExprV>) -> Seq<Text>
    decreases s,
{
    if s.len() == 0 {
        Seq::empty()
    } else {
        exprs_sql(s.drop_last()).push(expr_sql(s.last()))
    }
}

/// One line of a select list.
pub open spec fn select_line(item: SelectItemV, is_last: bool) -> Text {
    let named = match item.col_alias {
        Some(a) => "      "@ + expr_sql(item.expression) + " AS "@ + a,
        None => "      "@ + expr_sql(item.expression),
    };
    if is_last {
        named + "\n"@
    } else {
        named + ", "@ + "\n"@
    }
}

/// The lines of the first items of a select list of `total` items.
pub open spec fn select_lines(items: Seq<SelectItemV>, total: int) -> Text
    decreases items.len(),
{
    if items.len() == 0 {
        "SELECT \n"@
    } else {
        select_lines(items.drop_last(), total) + select_line(items.last(), items.len() == total)
    }
}

/// The `SELECT` clause; nothing for no item.
pub open spec fn select_sql(items: Seq<SelectItemV>) -> Text {
    if items.len() == 0 {
        Seq::empty()
    } else {
        select_lines(items, items.len() as int)
    }
}

/// The `FROM` clause of a table.
pub open spec fn from_table_sql(f: FromTableV) -> Text {
    match f.table_alias {
        Some(a) => if a.len() > 0 {
            "FROM "@ + f.table_name + " AS "@ + a + "\n"@
        } else {
            "FROM "@ + f.table_name + "\n"@
        },
        None => "FROM "@ + f.table_name + "\n"@,
    }
}

/// The `FROM` clause; nothing for no table.
pub open spec fn from_sql(f: Option<FromTableV>) -> Text {
    match f {
        Some(t) => from_table_sql(t),
        None => Seq::empty(),
    }
}

/// The `WHERE` clause; nothing for no filter.
pub open spec fn filter_sql(f: Option<ExprV>) -> Text {
    match f {
        Some(e) => "WHERE "@ + expr_sql(e) + "\n"@,
        None => Seq::empty(),
    }
}

/// The `GROUP BY` clause; nothing for no expression.
pub open spec fn group_by_sql(s: Seq<ExprV>) -> Text {
    if s.len() == 0 {
        Seq::empty()
    } else {
        "GROUP BY "@ + joined_sql(exprs_sql(s), ", "@) + "\n"@
    }
}

pub open spec fn order_text(o: OrderByOrder) -> Text {
    match o {
        OrderByOrder::Asc => "ASC"@,
        OrderByOrder::Desc => "DESC"@,
    }
}

pub open spec fn order_item_sql(item: OrderByItemV) -> Text {
    expr_sql(item.expression) + " "@ + order_text(item.order)
}

pub open spec fn order_items_sql(s: Seq<OrderByItemV>) -> Seq<Text>
    decreases s.len(),
{
    if s.len() == 0 {
        Seq::empty()
    } else {
        order_items_sql(s.drop_last()).push(order_item_sql(s.last()))
    }
}

/// The `ORDER BY` clause; nothing for no item.
pub open spec fn order_by_sql(s: Seq<OrderByItemV>) -> Text {
    if s.len() == 0 {
        Seq::empty()
    } else {
        "ORDER BY "@ + joined_sql(order_items_sql(s), ", "@) + "\n"@
    }
}

pub open spec fn limit_sql(l: Option<i64>) -> Text {
    match l {
        Some(n) => "LIMIT "@ + int_text(n as int) + "\n"@,
        None => Seq::empty(),
    }
}

pub open spec fn skip_sql(l: Option<i64>) -> Text {
    match l {
        Some(n) => "SKIP "@ + int_text(n as int) + "\n"@,
        None => Seq::empty(),
    }
}

pub open spec fn op_apps_sql(s: Seq<OpAppV>) -> Seq<Text>
    decreases s.len(),
{
    if s.len() == 0 {
        Seq::empty()
    } else {
        op_apps_sql(s.drop_last()).push(op_app_sql(s.last().operator, exprs_sql(s.last().operands)))
    }
}

/// One `JOIN` clause.
pub open spec fn join_sql(j: JoinV) -> Text {
    if j.joining_on.len() > 0 {
        "JOIN "@ + j.table_name + " AS "@ + j.table_alias + " ON "@ + joined_sql(
            op_apps_sql(j.joining_on),
            " AND "@,
        ) + "\n"@
    } else {
        "JOIN "@ + j.table_name + " AS "@ + j.table_alias + "\n"@
    }
}

/// The `JOIN` clauses, one after the other.
pub open spec fn joins_sql(s: Seq<JoinV>) -> Text
    decreases s.len(),
{
    if s.len() == 0 {
        Seq::empty()
    } else {
        joins_sql(s.drop_last()) + join_sql(s.last())
    }
}

/// A CTE: its name and, in brackets, its query.
pub open spec fn cte_sql(c: CteV) -> Text
    decreases c,
{
    c.name + " AS (\n"@ + plan_sql(*c.plan) + ")"@
}

/// The first CTEs of a list of `total`, each on a line of its own.
pub open spec fn cte_lines(s: Seq<CteV>, total: int) -> Text
    decreases s,
{
    if s.len() == 0 {
        "WITH "@
    } else if s.len() == total {
        cte_lines(s.drop_last(), total) + cte_sql(s.last()) + "\n"@
    } else {
        cte_lines(s.drop_last(), total) + cte_sql(s.last()) + ", "@ + "\n"@
    }
}

/// The `WITH` clause; nothing for no CTE.
pub open spec fn ctes_sql(s: Seq<CteV>) -> Text {
    if s.len() == 0 {
        Seq::empty()
    } else {
        cte_lines(s, s.len() as int)
    }
}

/// The members of a union, each after `UNION ALL` but the first of a
/// query that has no select list of its own.
pub open spec fn unions_sql(s: Seq<RenderPlanV>, lead: bool) -> Text
    decreases s,
{
    if s.len() == 0 {
        Seq::empty()
    } else if lead || s.len() > 1 {
        unions_sql(s.drop_last(), lead) + "UNION ALL\n"@ + plan_sql(s.last())
    } else {
        unions_sql(s.drop_last(), lead) + plan_sql(s.last())
    }
}

/// The SQL text of a query: `WITH`, `SELECT`, `FROM`, `JOIN`, `WHERE`,
/// `GROUP BY`, `ORDER BY`, `LIMIT`, `SKIP`, then the members of its union.
pub open spec fn plan_sql(p: RenderPlanV) -> Text
    decreases p,
{
    (if p.ctes.len() == 0 {
        Seq::empty()
    } else {
        cte_lines(p.ctes, p.ctes.len() as int)
    }) + select_sql(p.select) + from_sql(p.from) + joins_sql(p.joins) + filter_sql(
        p.filters,
    ) + group_by_sql(p.group_by) + order_by_sql(p.order_by) + limit_sql(p.limit) + skip_sql(
        p.skip,
    ) + unions_sql(p.union, p.select.len() > 0)
}

fn digit_str(d: u64) -> (s: &'static str)
    requires
        d < 10,
    ensures
        s@ == digit_text(d as int),
{
    if d == 0 {
        "0"
    } else if d == 1 {
        "1"
    } else if d == 2 {
        "2"
    } else if d == 3 {
        "3"
    } else if d == 4 {
        "4"
    } else if d == 5 {
        "5"
    } else if d == 6 {
        "6"
    } else if d == 7 {
        "7"
    } else if d == 8 {
        "8"
    } else {
        "9"
    }
}

fn push_nat(s: &mut String, n: u64)
    ensures
        final(s)@ == old(s)@ + nat_text(n as nat),
    decreases n,
{
    if n < 10 {
        s.append(digit_str(n));
    } else {
        push_nat(s, n / 10);
        s.append(digit_str(n % 10));
        assert(s@ =~= old(s)@ + (nat_text((n / 10) as nat) + digit_text((n % 10) as int)));
    }
}

fn push_int(s: &mut String, i: i64)
    ensures
        final(s)@ == old(s)@ + int_text(i as int),
{
    if i < 0 {
        s.append("-");
        let magnitude: u64 = if i == i64::MIN {
            9223372036854775808u64
        } else {
            (0 - i) as u64
        };
        push_nat(s, magnitude);
        assert(s@ =~= old(s)@ + ("-"@ + nat_text((-i) as nat)));
    } else {
        push_nat(s, i as u64);
    }
}

/// The decimal text of an integer.
pub fn int_to_string(i: i64) -> (s: String)
    ensures
        s@ == int_text(i as int),
{
    let mut s = String::new();
    push_int(&mut s, i);
    assert(s@ =~= int_text(i as int));
    s
}

/// The SQL token of an operator.
pub fn op_str(o: Operator) -> (s: &'static str)
    ensures
        s@ == op_text(o),
{
    match o {
        Operator::Addition => "+",
        Operator::Subtraction => "-",
        Operator::Multiplication => "*",
        Operator::Division => "/",
        Operator::ModuloDivision => "%",
        Operator::Exponentiation => "^",
        Operator::Equal => "=",
        Operator::NotEqual => "<>",
        Operator::LessThan => "<",
        Operator::GreaterThan => ">",
        Operator::LessThanEqual => "<=",
        Operator::GreaterThanEqual => ">=",
        Operator::And => "AND",
        Operator::Or => "OR",
        Operator::In => "IN",
        Operator::NotIn => "NOT IN",
        Operator::Not => "NOT",
        Operator::Distinct => "DISTINCT",
        Operator::IsNull => "IS NULL",
        Operator::IsNotNull => "IS NOT NULL",
    }
}

/// The strings joined by a separator.
pub fn join_strings(parts: &Vec<String>, sep: &str) -> (r: String)
    ensures
        r@ == joined_sql(seq_view(parts@), sep@),
{
    if parts.len() == 0 {
        return String::new();
    }
    let mut s = parts[0].clone();
    let mut i: usize = 1;
    let ghost ps = seq_view(parts@);
    assert(ps.take(1)[0] == parts@[0]@);
    while i < parts.len()
        invariant
            1 <= i <= parts.len(),
            ps == seq_view(parts@),
            s@ == joined_sql(ps.take(i as int), sep@),
        decreases parts.len() - i,
    {
        proof {
            assert(ps.take(i + 1).drop_last() =~= ps.take(i as int));
            assert(ps.take(i + 1).last() == parts@[i as int]@);
        }
        s.append(sep);
        s.append(parts[i].as_str());
        i += 1;
    }
    assert(ps.take(parts.len() as int) =~= ps);
    s
}

fn literal_to_sql(l: &Literal) -> (s: String)
    ensures
        s@ == literal_sql(l@),
{
    match l {
        Literal::Integer(i) => int_to_string(*i),
        Literal::Float(f) => f.clone(),
        Literal::Boolean(b) => if *b {
            String::from_str("true")
        } else {
            String::from_str("false")
        },
        Literal::String(t) => {
            let mut s = String::from_str("'");
            s.append(t.as_str());
            s.append("'");
            s
        },
        Literal::Null => String::from_str("NULL"),
    }
}

fn op_app_to_sql(o: Operator, rendered: &Vec<String>) -> (s: String)
    ensures
        s@ == op_app_sql(o, seq_view(rendered@)),
{
    if rendered.len() == 0 {
        String::new()
    } else if rendered.len() == 1 {
        let mut s = String::from_str(op_str(o));
        s.append(" ");
        s.append(rendered[0].as_str());
        s
    } else if rendered.len() == 2 {
        let mut s = rendered[0].clone();
        s.append(" ");
        s.append(op_str(o));
        s.append(" ");
        s.append(rendered[1].as_str());
        s
    } else {
        let mut sep = String::from_str(" ");
        sep.append(op_str(o));
        sep.append(" ");
        join_strings(rendered, sep.as_str())
    }
}

fn exprs_to_sql(v: &Vec<PlanExpr>) -> (out: Vec<String>)
    ensures
        seq_view(out@) == exprs_sql(seq_view(v@)),
    decreases v,
{
    let mut out: Vec<String> = Vec::new();
    let mut i: usize = 0;
    let ghost s = seq_view(v@);
    assert(s.take(0) =~= Seq::empty());
    assert(seq_view(out@) =~= Seq::empty());
    while i < v.len()
        invariant
            i <= v.len(),
            s == seq_view(v@),
            seq_view(out@) == exprs_sql(s.take(i as int)),
        decreases v.len() - i,
    {
        proof {
            assert(s.take(i + 1).drop_last() =~= s.take(i as int));
            assert(s.take(i + 1).last() == v@[i as int]@);
        }
        let t = expr_to_sql(&v[i]);
        let ghost prev = out@;
        out.push(t);
        assert(seq_view(out@) =~= seq_view(prev).push(t@));
        i += 1;
    }
    assert(s.take(v.len() as int) =~= s);
    out
}

fn call_to_sql(name: &String, rendered: &Vec<String>) -> (s: String)
    ensures
        s@ == name@ + "("@ + joined_sql(seq_view(rendered@), ", "@) + ")"@,
{
    let mut s = name.clone();
    s.append("(");
    s.append(join_strings(rendered, ", ").as_str());
    s.append(")");
    s
}

/// The SQL text of an expression.
pub fn expr_to_sql(e: &PlanExpr) -> (s: String)
    ensures
        s@ == expr_sql(e@),
    decreases e,
{
    match e {
        PlanExpr::Literal(l) => literal_to_sql(l),
        PlanExpr::Star => String::from_str("*"),
        PlanExpr::TableAlias(a) => a.0.clone(),
        PlanExpr::ColumnAlias(a) => a.0.clone(),
        PlanExpr::Column(a) => a.0.clone(),
        PlanExpr::Parameter(a) => a.clone(),
        PlanExpr::List(items) => {
            let rendered = exprs_to_sql(items);
            let mut s = String::from_str("(");
            s.append(join_strings(&rendered, ", ").as_str());
            s.append(")");
            s
        },
        PlanExpr::ScalarFnCall(f) => {
            let rendered = exprs_to_sql(&f.args);
            call_to_sql(&f.name, &rendered)
        },
        PlanExpr::AggregateFnCall(f) => {
            let rendered = exprs_to_sql(&f.args);
            call_to_sql(&f.name, &rendered)
        },
        PlanExpr::PropertyAccessExp(pa) => {
            let mut s = pa.table_alias.0.clone();
            s.append(".");
            s.append(pa.column.0.as_str());
            s
        },
        PlanExpr::OperatorApplicationExp(op) => {
            let rendered = exprs_to_sql(&op.operands);
            op_app_to_sql(op.operator, &rendered)
        },
        PlanExpr::InSubquery(sq) => {
            let mut s = expr_to_sql(&sq.expr);
            s.append(" IN (SELECT ");
            s.append(sq.subplan.column.as_str());
            s.append(" FROM ");
            s.append(sq.subplan.table_name.as_str());
            s.append(")");
            s
        },
    }
}

fn select_to_sql(items: &Vec<SelectItem>) -> (s: String)
    ensures
        s@ == select_sql(seq_view(items@)),
{
    if items.len() == 0 {
        return String::new();
    }
    let mut s = String::from_str("SELECT \n");
    let mut i: usize = 0;
    let ghost v = seq_view(items@);
    let n = items.len();
    assert(v.take(0) =~= Seq::empty());
    while i < n
        invariant
            i <= n,
            n == items.len(),
            v == seq_view(items@),
            s@ == select_lines(v.take(i as int), n as int),
        decreases n - i,
    {
        proof {
            assert(v.take(i + 1).drop_last() =~= v.take(i as int));
            assert(v.take(i + 1).last() == items@[i as int]@);
        }
        let ghost before = s@;
        let mut line = String::from_str("      ");
        line.append(expr_to_sql(&items[i].expression).as_str());
        match &items[i].col_alias {
            Some(a) => {
                line.append(" AS ");
                line.append(a.0.as_str());
            },
            None => {},
        }
        if i + 1 < n {
            line.append(", ");
        }
        line.append("\n");
        assert(line@ == select_line(items@[i as int]@, i + 1 == n));
        s.append(line.as_str());
        i += 1;
    }
    assert(v.take(n as int) =~= v);
    s
}

fn from_table_to_sql(f: &FromTable) -> (s: String)
    ensures
        s@ == from_table_sql(f@),
{
    let mut s = String::from_str("FROM ");
    s.append(f.table_name.as_str());
    match &f.table_alias {
        Some(a) => {
            if !a.as_str().is_empty() {
                s.append(" AS ");
                s.append(a.as_str());
            }
        },
        None => {},
    }
    s.append("\n");
    s
}

fn filter_to_sql(f: &Option<PlanExpr>) -> (s: String)
    ensures
        s@ == filter_sql(opt_view(*f)),
{
    match f {
        Some(e) => {
            let mut s = String::from_str("WHERE ");
            s.append(expr_to_sql(e).as_str());
            s.append("\n");
            s
        },
        None => String::new(),
    }
}

fn group_by_to_sql(v: &Vec<PlanExpr>) -> (s: String)
    ensures
        s@ == group_by_sql(seq_view(v@)),
{
    if v.len() == 0 {
        return String::new();
    }
    let rendered = exprs_to_sql(v);
    let mut s = String::from_str("GROUP BY ");
    s.append(join_strings(&rendered, ", ").as_str());
    s.append("\n");
    s
}

fn order_to_str(o: OrderByOrder) -> (s: &'static str)
    ensures
        s@ == order_text(o),
{
    match o {
        OrderByOrder::Asc => "ASC",
        OrderByOrder::Desc => "DESC",
    }
}

fn order_by_to_sql(v: &Vec<OrderByItem>) -> (s: String)
    ensures
        s@ == order_by_sql(seq_view(v@)),
{
    if v.len() == 0 {
        return String::new();
    }
    let mut rendered: Vec<String> = Vec::new();
    let mut i: usize = 0;
    let ghost items = seq_view(v@);
    assert(items.take(0) =~= Seq::empty());
    assert(seq_view(rendered@) =~= Seq::empty());
    while i < v.len()
        invariant
            i <= v.len(),
            items == seq_view(v@),
            seq_view(rendered@) == order_items_sql(items.take(i as int)),
        decreases v.len() - i,
    {
        proof {
            assert(items.take(i + 1).drop_last() =~= items.take(i as int));
            assert(items.take(i + 1).last() == v@[i as int]@);
        }
        let mut t = expr_to_sql(&v[i].expression);
        t.append(" ");
        t.append(order_to_str(v[i].order));
        let ghost prev = rendered@;
        rendered.push(t);
        assert(seq_view(rendered@) =~= seq_view(prev).push(t@));
        i += 1;
    }
    assert(items.take(v.len() as int) =~= items);
    let mut s = String::from_str("ORDER BY ");
    s.append(join_strings(&rendered, ", ").as_str());
    s.append("\n");
    s
}

fn limit_to_sql(l: Option<i64>) -> (s: String)
    ensures
        s@ == limit_sql(l),
{
    match l {
        Some(n) => {
            let mut s = String::from_str("LIMIT ");
            push_int(&mut s, n);
            s.append("\n");
            s
        },
        None => String::new(),
    }
}

fn skip_to_sql(l: Option<i64>) -> (s: String)
    ensures
        s@ == skip_sql(l),
{
    match l {
        Some(n) => {
            let mut s = String::from_str("SKIP ");
            push_int(&mut s, n);
            s.append("\n");
            s
        },
        None => String::new(),
    }
}

fn op_apps_to_sql(v: &Vec<OperatorApplication>) -> (out: Vec<String>)
    ensures
        seq_view(out@) == op_apps_sql(seq_view(v@)),
{
    let mut out: Vec<String> = Vec::new();
    let mut i: usize = 0;
    let ghost s = seq_view(v@);
    assert(s.take(0) =~= Seq::empty());
    assert(seq_view(out@) =~= Seq::empty());
    while i < v.len()
        invariant
            i <= v.len(),
            s == seq_view(v@),
            seq_view(out@) == op_apps_sql(s.take(i as int)),
        decreases v.len() - i,
    {
        proof {
            assert(s.take(i + 1).drop_last() =~= s.take(i as int));
            assert(s.take(i + 1).last() == v@[i as int]@);
        }
        let rendered = exprs_to_sql(&v[i].operands);
        let t = op_app_to_sql(v[i].operator, &rendered);
        let ghost prev = out@;
        out.push(t);
        assert(seq_view(out@) =~= seq_view(prev).push(t@));
        i += 1;
    }
    assert(s.take(v.len() as int) =~= s);
    out
}

fn join_to_sql(j: &Join) -> (s: String)
    ensures
        s@ == join_sql(j@),
{
    let mut s = String::from_str("JOIN ");
    s.append(j.table_name.as_str());
    s.append(" AS ");
    s.append(j.table_alias.as_str());
    if j.joining_on.len() > 0 {
        let rendered = op_apps_to_sql(&j.joining_on);
        s.append(" ON ");
        s.append(join_strings(&rendered, " AND ").as_str());
    }
    s.append("\n");
    s
}

fn joins_to_sql(v: &Vec<Join>) -> (s: String)
    ensures
        s@ == joins_sql(seq_view(v@)),
{
    let mut s = String::new();
    let mut i: usize = 0;
    let ghost js = seq_view(v@);
    assert(js.take(0) =~= Seq::empty());
    while i < v.len()
        invariant
            i <= v.len(),
            js == seq_view(v@),
            s@ == joins_sql(js.take(i as int)),
        decreases v.len() - i,
    {
        proof {
            assert(js.take(i + 1).drop_last() =~= js.take(i as int));
            assert(js.take(i + 1).last() == v@[i as int]@);
        }
        s.append(join_to_sql(&v[i]).as_str());
        i += 1;
    }
    assert(js.take(v.len() as int) =~= js);
    s
}

fn cte_to_sql(c: &Cte) -> (s: String)
    ensures
        s@ == cte_sql(c@),
    decreases c,
{
    let mut s = c.cte_name.clone();
    s.append(" AS (\n");
    s.append(plan_to_sql(&c.cte_plan).as_str());
    s.append(")");
    s
}

fn ctes_to_sql(v: &Vec<Cte>) -> (s: String)
    ensures
        s@ == ctes_sql(seq_view(v@)),
    decreases v,
{
    if v.len() == 0 {
        return String::new();
    }
    let mut s = String::from_str("WITH ");
    let mut i: usize = 0;
    let n = v.len();
    let ghost cs = seq_view(v@);
    assert(cs.take(0) =~= Seq::empty());
    while i < n
        invariant
            i <= n,
            n == v.len(),
            cs == seq_view(v@),
            s@ == cte_lines(cs.take(i as int), n as int),
        decreases n - i,
    {
        proof {
            assert(cs.take(i + 1).drop_last() =~= cs.take(i as int));
            assert(cs.take(i + 1).last() == v@[i as int]@);
        }
        s.append(cte_to_sql(&v[i]).as_str());
        if i + 1 < n {
            s.append(", ");
        }
        s.append("\n");
        i += 1;
    }
    assert(cs.take(n as int) =~= cs);
    s
}

fn unions_to_sql(v: &Vec<RenderPlan>, lead: bool) -> (s: String)
    ensures
        s@ == unions_sql(seq_view(v@), lead),
    decreases v,
{
    let mut s = String::new();
    let mut i: usize = 0;
    let ghost us = seq_view(v@);
    assert(us.take(0) =~= Seq::empty());
    while i < v.len()
        invariant
            i <= v.len(),
            us == seq_view(v@),
            s@ == unions_sql(us.take(i as int), lead),
        decreases v.len() - i,
    {
        proof {
            assert(us.take(i + 1).drop_last() =~= us.take(i as int));
            assert(us.take(i + 1).last() == v@[i as int]@);
        }
        if lead || i > 0 {
            s.append("UNION ALL\n");
        }
        s.append(plan_to_sql(&v[i]).as_str());
        i += 1;
    }
    assert(us.take(v.len() as int) =~= us);
    s
}

/// The SQL text of a query.
pub fn plan_to_sql(p: &RenderPlan) -> (s: String)
    ensures
        s@ == plan_sql(p@),
    decreases p,
{
    let mut s = ctes_to_sql(&p.ctes.0);
    s.append(select_to_sql(&p.select.0).as_str());
    match &p.from.0 {
        Some(f) => {
            s.append(from_table_to_sql(f).as_str());
        },
        None => {
            assert(s@ =~= s@ + from_sql(None));
        },
    }
    s.append(joins_to_sql(&p.joins.0).as_str());
    s.append(filter_to_sql(&p.filters.0).as_str());
    s.append(group_by_to_sql(&p.group_by.0).as_str());
    s.append(order_by_to_sql(&p.order_by.0).as_str());
    s.append(limit_to_sql(p.limit.0).as_str());
    s.append(skip_to_sql(p.skip.0).as_str());
    s.append(unions_to_sql(&p.union.0, p.select.0.len() > 0).as_str());
    s
}

impl PlanExpr {
    /// The SQL text of the expression.
    pub fn to_sql(&self) -> (s: String)
        ensures
            s@ == expr_sql(self@),
    {
        expr_to_sql(self)
    }
}

impl RenderPlan {
    /// The SQL text of the query.
    pub fn to_sql(&self) -> (s: String)
        ensures
            s@ == plan_sql(self@),
    {
        plan_to_sql(self)
    }
}

impl ToSql for SelectItems {
    open spec fn sql(&self) -> Text {
        select_sql(seq_view(self.0@))
    }

    fn to_sql(&self) -> (s: String) {
        select_to_sql(&self.0)
    }
}

impl ToSql for FromTable {
    open spec fn sql(&self) -> Text {
        from_table_sql(self@)
    }

    fn to_sql(&self) -> (s: String) {
        from_table_to_sql(self)
    }
}

impl ToSql for FromTableItem {
    open spec fn sql(&self) -> Text {
        from_sql(opt_view(self.0))
    }

    fn to_sql(&self) -> (s: String) {
        match &self.0 {
            Some(f) => from_table_to_sql(f),
            None => String::new(),
        }
    }
}

impl ToSql for FilterItems {
    open spec fn sql(&self) -> Text {
        filter_sql(opt_view(self.0))
    }

    fn to_sql(&self) -> (s: String) {
        filter_to_sql(&self.0)
    }
}

impl ToSql for GroupByExpressions {
    open spec fn sql(&self) -> Text {
        group_by_sql(seq_view(self.0@))
    }

    fn to_sql(&self) -> (s: String) {
        group_by_to_sql(&self.0)
    }
}

impl ToSql for OrderByItems {
    open spec fn sql(&self) -> Text {
        order_by_sql(seq_view(self.0@))
    }

    fn to_sql(&self) -> (s: String) {
        order_by_to_sql(&self.0)
    }
}

impl ToSql for OrderByOrder {
    open spec fn sql(&self) -> Text {
        order_text(*self)
    }

    fn to_sql(&self) -> (s: String) {
        String::from_str(order_to_str(*self))
    }
}

impl ToSql for LimitItem {
    open spec fn sql(&self) -> Text {
        limit_sql(self.0)
    }

    fn to_sql(&self) -> (s: String) {
        limit_to_sql(self.0)
    }
}

impl ToSql for SkipItem {
    open spec fn sql(&self) -> Text {
        skip_sql(self.0)
    }

    fn to_sql(&self) -> (s: String) {
        skip_to_sql(self.0)
    }
}

impl ToSql for Join {
    open spec fn sql(&self) -> Text {
        join_sql(self@)
    }

    fn to_sql(&self) -> (s: String) {
        join_to_sql(self)
    }
}

impl ToSql for JoinItems {
    open spec fn sql(&self) -> Text {
        joins_sql(seq_view(self.0@))
    }

    fn to_sql(&self) -> (s: String) {
        joins_to_sql(&self.0)
    }
}

impl ToSql for OperatorApplication {
    open spec fn sql(&self) -> Text {
        op_app_sql(self.operator, exprs_sql(seq_view(self.operands@)))
    }

    fn to_sql(&self) -> (s: String) {
        let rendered = exprs_to_sql(&self.operands);
        op_app_to_sql(self.operator, &rendered)
    }
}

impl ToSql for Cte {
    open spec fn sql(&self) -> Text {
        cte_sql(self@)
    }

    fn to_sql(&self) -> (s: String) {
        cte_to_sql(self)
    }
}

impl ToSql for CteItems {
    open spec fn sql(&self) -> Text {
        ctes_sql(seq_view(self.0@))
    }

    fn to_sql(&self) -> (s: String) {
        ctes_to_sql(&self.0)
    }
}

/// The SQL text of a render plan.
pub fn generate_sql(plan: RenderPlan) -> (sql: String)
    ensures
        sql@ == plan_sql(plan@),
{
    plan_to_sql(&plan)
}

} // verus!
