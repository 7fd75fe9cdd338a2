//! The parser: recursive-descent rules over an immutable token sequence and a
//! position into it. A rule returns the position after what it read and the
//! tree, or fails: softly (`NoMatch`, the caller may try another alternative
//! from the same position) or hard (`Error`, passed on past every alternative).
//! Each rule is proved to return what the matching rule of
//! [`crate::grammar`] describes.

use vstd::prelude::*;
use crate::ast::{
    BinaryOp, BinaryOpKind, Chunk, Expression, ExprModel, FunctionCall, FunctionDeclaration,
    IfStatement, KeyModel, LocalAssignment, NumericFor, RepeatLoop, Statement, StmtModel,
    TableKey, TableLiteral, UnaryOp, key_model, UnaryOpKind, WhileLoop, CallModel, call_model, chunk_model,
    else_ifs_model, expr_model, exprs_model, items_model, names_model, stmt_model, stmts_model,
};
use crate::grammar::{
    args_at, binary_at, call_at, chunk_at, else_if_tail, expr_list_at, expr_tail,
    expression_at, function_at, ident_at, if_at, is_close_paren, is_keyword, is_open_paren,
    is_operator, literal_at, local_assignment_at, name_tail, number_at,
    numeric_for_at, params_at, params_width, paren_at, repeat_at, statement_at, table_at,
    table_item_at, table_item_tail, table_items_at, unary_at, value_at, while_at,
};
use crate::tokenizer::{Token, TokenKind, TokenModel, kind_text, tokens_view};

verus! {

/// Why a rule did not produce a tree.
#[derive(Debug)]
pub enum ParseAbort {
    /// The rule does not apply here; another alternative may be tried.
    NoMatch,
    /// The input is malformed where the rule was committed; nothing is retried.
    Error(String),
}

pub open spec fn tv(toks: &[Token]) -> Seq<TokenModel> {
    tokens_view(toks@)
}

/// A result of the parser is a soft failure or lies ahead of `pos`.
pub open spec fn well_formed<T>(r: Result<(usize, T), ParseAbort>, pos: int, len: int) -> bool {
    match r {
        Ok((p, _)) => pos < p <= len,
        Err(e) => e is NoMatch,
    }
}

pub open spec fn expr_result(r: Result<(usize, Expression), ParseAbort>) -> Option<(int, ExprModel)> {
    match r {
        Ok((p, e)) => Some((p as int, expr_model(e))),
        Err(_) => None,
    }
}

fn text_eq(t: &String, w: &str) -> (r: bool)
    ensures
        r == (t@ == w@),
{
    let o = w.to_owned();
    *t == o
}

fn keyword_at(toks: &[Token], p: usize, w: &str) -> (r: bool)
    ensures
        r == is_keyword(tv(toks), p as int, w@),
{
    if p < toks.len() {
        match &toks[p].kind {
            TokenKind::Keyword(t) => text_eq(t, w),
            _ => false,
        }
    } else {
        false
    }
}

fn operator_at(toks: &[Token], p: usize, w: &str) -> (r: bool)
    ensures
        r == is_operator(tv(toks), p as int, w@),
{
    if p < toks.len() {
        match &toks[p].kind {
            TokenKind::Operator(t) => text_eq(t, w),
            _ => false,
        }
    } else {
        false
    }
}

fn open_paren_at(toks: &[Token], p: usize) -> (r: bool)
    ensures
        r == is_open_paren(tv(toks), p as int),
{
    p < toks.len() && matches!(toks[p].kind, TokenKind::OpenParen)
}

fn close_paren_at(toks: &[Token], p: usize) -> (r: bool)
    ensures
        r == is_close_paren(tv(toks), p as int),
{
    p < toks.len() && matches!(toks[p].kind, TokenKind::CloseParen)
}

fn identifier(toks: &[Token], p: usize) -> (r: Option<String>)
    ensures
        match r {
            Some(n) => ident_at(tv(toks), p as int) == Some(n@),
            None => ident_at(tv(toks), p as int) is None,
        },
{
    if p < toks.len() {
        match &toks[p].kind {
            TokenKind::Identifier(t) => Some(t.clone()),
            _ => None,
        }
    } else {
        None
    }
}

fn number(toks: &[Token], p: usize) -> (r: Option<String>)
    ensures
        match r {
            Some(n) => number_at(tv(toks), p as int) == Some(n@),
            None => number_at(tv(toks), p as int) is None,
        },
{
    if p < toks.len() {
        match &toks[p].kind {
            TokenKind::NumberLiteral(t) => Some(t.clone()),
            _ => None,
        }
    } else {
        None
    }
}

fn literal(toks: &[Token], p: usize) -> (r: Option<Expression>)
    ensures
        match r {
            Some(e) => literal_at(tv(toks), p as int) == Some(expr_model(e)),
            None => literal_at(tv(toks), p as int) is None,
        },
{
    if p < toks.len() {
        match &toks[p].kind {
            TokenKind::BoolLiteral(b) => Some(Expression::Bool(*b)),
            TokenKind::NilLiteral => Some(Expression::Nil),
            _ => None,
        }
    } else {
        None
    }
}

fn unary_operator(toks: &[Token], p: usize) -> (r: Option<UnaryOpKind>)
    ensures
        r == unary_at(tv(toks), p as int),
{
    if operator_at(toks, p, "-") {
        Some(UnaryOpKind::Negate)
    } else if operator_at(toks, p, "#") {
        Some(UnaryOpKind::Length)
    } else if keyword_at(toks, p, "not") {
        Some(UnaryOpKind::BooleanNot)
    } else {
        None
    }
}

fn binary_operator(toks: &[Token], p: usize) -> (r: Option<BinaryOpKind>)
    ensures
        r == binary_at(tv(toks), p as int),
{
    if operator_at(toks, p, "+") {
        Some(BinaryOpKind::Add)
    } else if operator_at(toks, p, "-") {
        Some(BinaryOpKind::Subtract)
    } else if operator_at(toks, p, "*") {
        Some(BinaryOpKind::Multiply)
    } else if operator_at(toks, p, "/") {
        Some(BinaryOpKind::Divide)
    } else if operator_at(toks, p, "^") {
        Some(BinaryOpKind::Exponent)
    } else if operator_at(toks, p, "..") {
        Some(BinaryOpKind::Concat)
    } else {
        None
    }
}

/// An expression at `pos`: see [`expression_at`].
pub fn parse_expression(toks: &[Token], pos: usize) -> (r: Result<(usize, Expression), ParseAbort>)
    requires
        pos <= toks.len(),
    ensures
        well_formed(r, pos as int, toks.len() as int),
        expr_result(r) == expression_at(tv(toks), pos as int),
    decreases toks.len() - pos, 2int,
{
    if let Some(op) = unary_operator(toks, pos) {
        match parse_expression(toks, pos + 1) {
            Ok((p, arg)) => Ok((p, Expression::UnaryOp(UnaryOp { operator: op, argument: Box::new(arg) }))),
            Err(e) => Err(e),
        }
    } else {
        match parse_value(toks, pos) {
            Ok((p, left)) => {
                if let Some(op) = binary_operator(toks, p) {
                    match parse_expression(toks, p + 1) {
                        Ok((q, right)) => Ok(
                            (
                                q,
                                Expression::BinaryOp(
                                    BinaryOp {
                                        operator: op,
                                        left: Box::new(left),
                                        right: Box::new(right),
                                    },
                                ),
                            ),
                        ),
                        Err(e) => Err(e),
                    }
                } else {
                    Ok((p, left))
                }
            },
            Err(e) => Err(e),
        }
    }
}

/// A value at `pos`: see [`value_at`].
fn parse_value(toks: &[Token], pos: usize) -> (r: Result<(usize, Expression), ParseAbort>)
    requires
        pos <= toks.len(),
    ensures
        well_formed(r, pos as int, toks.len() as int),
        expr_result(r) == value_at(tv(toks), pos as int),
    decreases toks.len() - pos, 1int,
{
    if let Some(t) = number(toks, pos) {
        return Ok((pos + 1, Expression::Number(t)));
    }
    if let Some(v) = literal(toks, pos) {
        return Ok((pos + 1, v));
    }
    match parse_function_call(toks, pos) {
        Ok((p, c)) => {
            return Ok((p, Expression::FunctionCall(c)));
        },
        Err(ParseAbort::NoMatch) => {},
        Err(e) => {
            return Err(e);
        },
    }
    if let Some(n) = identifier(toks, pos) {
        return Ok((pos + 1, Expression::Name(n)));
    }
    match parse_table(toks, pos) {
        Ok((p, t)) => {
            return Ok((p, Expression::Table(t)));
        },
        Err(ParseAbort::NoMatch) => {},
        Err(e) => {
            return Err(e);
        },
    }
    parse_paren(toks, pos)
}

pub open spec fn call_result(r: Result<(usize, FunctionCall), ParseAbort>) -> Option<(int, CallModel)> {
    match r {
        Ok((p, c)) => Some((p as int, call_model(c))),
        Err(_) => None,
    }
}

/// name `(` arguments `)` at `pos`; the callee is the name as an expression.
fn parse_function_call(toks: &[Token], pos: usize) -> (r: Result<(usize, FunctionCall), ParseAbort>)
    requires
        pos <= toks.len(),
    ensures
        well_formed(r, pos as int, toks.len() as int),
        call_result(r) == call_at(tv(toks), pos as int),
    decreases toks.len() - pos, 0int,
{
    let name = match identifier(toks, pos) {
        Some(n) => n,
        None => {
            return Err(ParseAbort::NoMatch);
        },
    };
    if !open_paren_at(toks, pos + 1) {
        return Err(ParseAbort::NoMatch);
    }
    let (p, arguments) = match parse_args(toks, pos + 2) {
        Ok(r) => r,
        Err(e) => {
            return Err(e);
        },
    };
    if close_paren_at(toks, p) {
        Ok((p + 1, FunctionCall { name_expression: Box::new(Expression::Name(name)), arguments }))
    } else {
        Err(ParseAbort::NoMatch)
    }
}

pub open spec fn list_result(r: Result<(usize, Vec<Expression>), ParseAbort>) -> Option<(int, Seq<ExprModel>)> {
    match r {
        Ok((p, v)) => Some((p as int, exprs_model(v@))),
        Err(_) => None,
    }
}

proof fn lemma_exprs_model_prepend(e: Expression, v: Seq<Expression>)
    ensures
        exprs_model(v.insert(0, e)) == seq![expr_model(e)] + exprs_model(v),
{
    assert(v.insert(0, e).drop_first() =~= v);
}

/// One or more expressions separated by `,` at `pos`.
fn parse_expr_list(toks: &[Token], pos: usize) -> (r: Result<(usize, Vec<Expression>), ParseAbort>)
    requires
        pos <= toks.len(),
    ensures
        well_formed(r, pos as int, toks.len() as int),
        list_result(r) == expr_list_at(tv(toks), pos as int),
    decreases toks.len() - pos, 3int,
{
    let (p, e) = match parse_expression(toks, pos) {
        Ok(r) => r,
        Err(e) => {
            return Err(e);
        },
    };
    match parse_expr_tail(toks, p) {
        Ok((q, mut rest)) => {
            proof {
                lemma_exprs_model_prepend(e, rest@);
            }
            rest.insert(0, e);
            Ok((q, rest))
        },
        Err(e) => Err(e),
    }
}

/// The expressions that follow at `p`, each after a `,`.
fn parse_expr_tail(toks: &[Token], p: usize) -> (r: Result<(usize, Vec<Expression>), ParseAbort>)
    requires
        p <= toks.len(),
    ensures
        r matches Ok((q, _)) && p <= q <= toks.len(),
        list_result(r) == Some(expr_tail(tv(toks), p as int)),
    decreases toks.len() - p, 3int,
{
    if !operator_at(toks, p, ",") {
        return Ok((p, Vec::new()));
    }
    let (q, e) = match parse_expression(toks, p + 1) {
        Ok(r) => r,
        Err(ParseAbort::NoMatch) => {
            return Ok((p, Vec::new()));
        },
        Err(e) => {
            return Err(e);
        },
    };
    match parse_expr_tail(toks, q) {
        Ok((end, mut rest)) => {
            proof {
                lemma_exprs_model_prepend(e, rest@);
            }
            rest.insert(0, e);
            Ok((end, rest))
        },
        Err(e) => Err(e),
    }
}

/// Zero or more expressions separated by `,` at `pos`.
fn parse_args(toks: &[Token], pos: usize) -> (r: Result<(usize, Vec<Expression>), ParseAbort>)
    requires
        pos <= toks.len(),
    ensures
        r matches Ok((q, _)) && pos <= q <= toks.len(),
        list_result(r) == Some(args_at(tv(toks), pos as int)),
    decreases toks.len() - pos, 4int,
{
    match parse_expr_list(toks, pos) {
        Ok(r) => Ok(r),
        Err(ParseAbort::NoMatch) => Ok((pos, Vec::new())),
        Err(e) => Err(e),
    }
}

pub open spec fn table_result(r: Result<(usize, TableLiteral), ParseAbort>) -> Option<(int, Seq<(Option<KeyModel>, ExprModel)>)> {
    match r {
        Ok((p, t)) => Some((p as int, items_model(t.items@))),
        Err(_) => None,
    }
}

/// `{` entries `}` at `pos`.
fn parse_table(toks: &[Token], pos: usize) -> (r: Result<(usize, TableLiteral), ParseAbort>)
    requires
        pos <= toks.len(),
    ensures
        well_formed(r, pos as int, toks.len() as int),
        table_result(r) == table_at(tv(toks), pos as int),
    decreases toks.len() - pos, 0int,
{
    if !operator_at(toks, pos, "{") {
        return Err(ParseAbort::NoMatch);
    }
    let (p, items) = match parse_table_items(toks, pos + 1) {
        Ok(r) => r,
        Err(e) => {
            return Err(e);
        },
    };
    if operator_at(toks, p, "}") {
        Ok((p + 1, TableLiteral { items }))
    } else {
        Err(ParseAbort::NoMatch)
    }
}

pub open spec fn items_result(r: Result<(usize, Vec<(Option<TableKey>, Expression)>), ParseAbort>) -> Option<
    (int, Seq<(Option<KeyModel>, ExprModel)>),
> {
    match r {
        Ok((p, v)) => Some((p as int, items_model(v@))),
        Err(_) => None,
    }
}

pub open spec fn item_result(r: Result<(usize, (Option<TableKey>, Expression)), ParseAbort>) -> Option<
    (int, (Option<KeyModel>, ExprModel)),
> {
    match r {
        Ok((p, item)) => Some((p as int, items_model(seq![item])[0])),
        Err(_) => None,
    }
}

proof fn lemma_items_model_prepend(item: (Option<TableKey>, Expression), v: Seq<(Option<TableKey>, Expression)>)
    ensures
        items_model(v.insert(0, item)) == seq![items_model(seq![item])[0]] + items_model(v),
{
    assert(v.insert(0, item).drop_first() =~= v);
    assert(seq![item].drop_first() =~= Seq::<(Option<TableKey>, Expression)>::empty());
}

/// Zero or more table entries at `pos`.
fn parse_table_items(toks: &[Token], pos: usize) -> (r: Result<(usize, Vec<(Option<TableKey>, Expression)>), ParseAbort>)
    requires
        pos <= toks.len(),
    ensures
        r matches Ok((q, _)) && pos <= q <= toks.len(),
        items_result(r) == Some(table_items_at(tv(toks), pos as int)),
    decreases toks.len() - pos, 4int,
{
    let (p, item) = match parse_table_item(toks, pos) {
        Ok(r) => r,
        Err(ParseAbort::NoMatch) => {
            return Ok((pos, Vec::new()));
        },
        Err(e) => {
            return Err(e);
        },
    };
    match parse_table_item_tail(toks, p) {
        Ok((q, mut rest)) => {
            proof {
                lemma_items_model_prepend(item, rest@);
            }
            rest.insert(0, item);
            Ok((q, rest))
        },
        Err(e) => Err(e),
    }
}

/// The table entries that follow at `p`, each after a separator.
fn parse_table_item_tail(toks: &[Token], p: usize) -> (r: Result<(usize, Vec<(Option<TableKey>, Expression)>), ParseAbort>)
    requires
        p <= toks.len(),
    ensures
        r matches Ok((q, _)) && p <= q <= toks.len(),
        items_result(r) == Some(table_item_tail(tv(toks), p as int)),
    decreases toks.len() - p, 1int,
{
    if !(operator_at(toks, p, ",") || operator_at(toks, p, ";")) {
        return Ok((p, Vec::new()));
    }
    let (q, item) = match parse_table_item(toks, p + 1) {
        Ok(r) => r,
        Err(ParseAbort::NoMatch) => {
            return Ok((p + 1, Vec::new()));
        },
        Err(e) => {
            return Err(e);
        },
    };
    match parse_table_item_tail(toks, q) {
        Ok((end, mut rest)) => {
            proof {
                lemma_items_model_prepend(item, rest@);
            }
            rest.insert(0, item);
            Ok((end, rest))
        },
        Err(e) => Err(e),
    }
}

/// A table entry at `pos`: an optional key with `=`, then the value.
fn parse_table_item(toks: &[Token], pos: usize) -> (r: Result<(usize, (Option<TableKey>, Expression)), ParseAbort>)
    requires
        pos <= toks.len(),
    ensures
        well_formed(r, pos as int, toks.len() as int),
        item_result(r) == table_item_at(tv(toks), pos as int),
    decreases toks.len() - pos, 3int,
{
    let mut key: Option<TableKey> = None;
    let mut p: usize = pos;
    if let Some(n) = identifier(toks, pos) {
        key = Some(TableKey::Name(n));
        p = pos + 1;
    } else if operator_at(toks, pos, "[") {
        match parse_expression(toks, pos + 1) {
            Ok((q, k)) => {
                if operator_at(toks, q, "]") {
                    key = Some(TableKey::Expression(k));
                    p = q + 1;
                }
            },
            Err(ParseAbort::NoMatch) => {},
            Err(e) => {
                return Err(e);
            },
        }
    }
    if key.is_some() {
        if !operator_at(toks, p, "=") {
            return Err(ParseAbort::NoMatch);
        }
        p = p + 1;
    }
    match parse_expression(toks, p) {
        Ok((q, v)) => {
            let item = (key, v);
            proof {
                assert(seq![item].drop_first() =~= Seq::<(Option<TableKey>, Expression)>::empty());
                assert(items_model(seq![item])[0] == (key_model(item.0), expr_model(v)));
            }
            Ok((q, item))
        },
        Err(e) => Err(e),
    }
}

/// `(` expression `)` at `pos`.
fn parse_paren(toks: &[Token], pos: usize) -> (r: Result<(usize, Expression), ParseAbort>)
    requires
        pos <= toks.len(),
    ensures
        well_formed(r, pos as int, toks.len() as int),
        expr_result(r) == paren_at(tv(toks), pos as int),
    decreases toks.len() - pos, 0int,
{
    if !open_paren_at(toks, pos) {
        return Err(ParseAbort::NoMatch);
    }
    let (p, e) = match parse_expression(toks, pos + 1) {
        Ok(r) => r,
        Err(e) => {
            return Err(e);
        },
    };
    if close_paren_at(toks, p) {
        Ok((p + 1, Expression::ParenExpression(Box::new(e))))
    } else {
        Err(ParseAbort::NoMatch)
    }
}

pub open spec fn stmt_result(r: Result<(usize, Statement), ParseAbort>) -> Option<(int, StmtModel)> {
    match r {
        Ok((p, st)) => Some((p as int, stmt_model(st))),
        Err(_) => None,
    }
}

pub open spec fn chunk_result(r: Result<(usize, Chunk), ParseAbort>) -> Option<(int, Seq<StmtModel>)> {
    match r {
        Ok((p, c)) => Some((p as int, chunk_model(c))),
        Err(_) => None,
    }
}

proof fn lemma_stmts_model_push(v: Seq<Statement>, st: Statement)
    ensures
        stmts_model(v.push(st)) == stmts_model(v) + seq![stmt_model(st)],
    decreases v.len(),
{
    if v.len() == 0 {
        let w = v.push(st);
        assert(w[0] == st);
        assert(w.drop_first() =~= Seq::<Statement>::empty());
        assert(stmts_model(w.drop_first()) == Seq::<StmtModel>::empty());
        assert(stmts_model(v) == Seq::<StmtModel>::empty());
        assert(stmts_model(w) =~= seq![stmt_model(st)]);
    } else {
        lemma_stmts_model_push(v.drop_first(), st);
        assert(v.push(st).drop_first() =~= v.drop_first().push(st));
        assert(stmts_model(v.push(st)) =~= stmts_model(v) + seq![stmt_model(st)]);
    }
}

/// A block at `pos`: statements for as long as one applies.
pub fn parse_chunk(toks: &[Token], pos: usize) -> (r: Result<(usize, Chunk), ParseAbort>)
    requires
        pos <= toks.len(),
    ensures
        r matches Ok((q, _)) && pos <= q <= toks.len(),
        chunk_result(r) == Some(chunk_at(tv(toks), pos as int)),
    decreases toks.len() - pos, 6int,
{
    let mut statements: Vec<Statement> = Vec::new();
    let mut p: usize = pos;
    loop
        invariant
            pos <= p <= toks.len(),
            chunk_at(tv(toks), pos as int) == (chunk_at(tv(toks), p as int).0, stmts_model(
                statements@,
            ) + chunk_at(tv(toks), p as int).1),
        decreases toks.len() - p,
    {
        match parse_statement(toks, p) {
            Ok((q, st)) => {
                proof {
                    lemma_stmts_model_push(statements@, st);
                    let rest = chunk_at(tv(toks), q as int).1;
                    assert(stmts_model(statements@) + (seq![stmt_model(st)] + rest)
                        =~= (stmts_model(statements@) + seq![stmt_model(st)]) + rest);
                }
                statements.push(st);
                p = q;
            },
            Err(ParseAbort::NoMatch) => {
                proof {
                    assert(stmts_model(statements@) + seq![] =~= stmts_model(statements@));
                }
                return Ok((p, Chunk { statements }));
            },
            Err(e) => {
                return Err(e);
            },
        }
    }
}

/// A statement at `pos`: the first rule of [`statement_at`] that applies.
fn parse_statement(toks: &[Token], pos: usize) -> (r: Result<(usize, Statement), ParseAbort>)
    requires
        pos <= toks.len(),
    ensures
        well_formed(r, pos as int, toks.len() as int),
        stmt_result(r) == statement_at(tv(toks), pos as int),
    decreases toks.len() - pos, 5int,
{
    match parse_local_assignment(toks, pos) {
        Err(ParseAbort::NoMatch) => {},
        r => {
            return r;
        },
    }
    match parse_function_call(toks, pos) {
        Ok((p, c)) => {
            return Ok((p, Statement::FunctionCall(c)));
        },
        Err(ParseAbort::NoMatch) => {},
        Err(e) => {
            return Err(e);
        },
    }
    match parse_numeric_for(toks, pos) {
        Err(ParseAbort::NoMatch) => {},
        r => {
            return r;
        },
    }
    match parse_if(toks, pos) {
        Err(ParseAbort::NoMatch) => {},
        r => {
            return r;
        },
    }
    match parse_while(toks, pos) {
        Err(ParseAbort::NoMatch) => {},
        r => {
            return r;
        },
    }
    match parse_repeat(toks, pos) {
        Err(ParseAbort::NoMatch) => {},
        r => {
            return r;
        },
    }
    parse_function_declaration(toks, pos)
}

/// The names that follow at `p`, each after a `,`; they end at `p + 2 * len`.
fn parse_name_tail(toks: &[Token], p: usize) -> (r: Vec<String>)
    requires
        p <= toks.len(),
    ensures
        names_model(r@) == name_tail(tv(toks), p as int),
        p + 2 * r.len() <= toks.len(),
{
    let mut names: Vec<String> = Vec::new();
    let mut q: usize = p;
    loop
        invariant
            p <= q <= toks.len(),
            q == p + 2 * names.len(),
            name_tail(tv(toks), p as int) == names_model(names@) + name_tail(tv(toks), q as int),
        ensures
            q == p + 2 * names.len(),
            q <= toks.len(),
            name_tail(tv(toks), q as int) == Seq::<Seq<char>>::empty(),
            name_tail(tv(toks), p as int) == names_model(names@) + name_tail(tv(toks), q as int),
        decreases toks.len() - q,
    {
        if !operator_at(toks, q, ",") {
            break;
        }
        match identifier(toks, q + 1) {
            Some(n) => {
                proof {
                    let rest = name_tail(tv(toks), q + 2);
                    assert(names_model(names@.push(n)) =~= names_model(names@) + seq![n@]);
                    assert(names_model(names@) + (seq![n@] + rest) =~= (names_model(names@)
                        + seq![n@]) + rest);
                }
                names.push(n);
                q = q + 2;
            },
            None => {
                break;
            },
        }
    }
    proof {
        assert(names_model(names@) + seq![] =~= names_model(names@));
    }
    names
}

/// Zero or more names separated by `,` at `p`, and the position after them.
fn parse_params(toks: &[Token], p: usize) -> (r: (usize, Vec<String>))
    requires
        p <= toks.len(),
    ensures
        names_model(r.1@) == params_at(tv(toks), p as int),
        r.0 == p + params_width(tv(toks), p as int),
        r.0 <= toks.len(),
{
    match identifier(toks, p) {
        Some(n) => {
            let mut rest = parse_name_tail(toks, p + 1);
            let end = p + 1 + 2 * rest.len();
            proof {
                assert(names_model(rest@.insert(0, n)) =~= seq![n@] + names_model(rest@));
            }
            rest.insert(0, n);
            (end, rest)
        },
        None => {
            let v: Vec<String> = Vec::new();
            proof {
                assert(names_model(v@) =~= Seq::<Seq<char>>::empty());
            }
            (p, v)
        },
    }
}

/// `local` names [`=` expressions] at `pos`.
fn parse_local_assignment(toks: &[Token], pos: usize) -> (r: Result<(usize, Statement), ParseAbort>)
    requires
        pos <= toks.len(),
    ensures
        well_formed(r, pos as int, toks.len() as int),
        stmt_result(r) == local_assignment_at(tv(toks), pos as int),
    decreases toks.len() - pos, 1int,
{
    if !keyword_at(toks, pos, "local") {
        return Err(ParseAbort::NoMatch);
    }
    let first = match identifier(toks, pos + 1) {
        Some(n) => n,
        None => {
            return Err(ParseAbort::NoMatch);
        },
    };
    let mut names = parse_name_tail(toks, pos + 2);
    let p = pos + 2 + 2 * names.len();
    proof {
        assert(names_model(names@.insert(0, first)) =~= seq![first@] + names_model(names@));
    }
    names.insert(0, first);
    if operator_at(toks, p, "=") {
        match parse_expr_list(toks, p + 1) {
            Ok((q, values)) => Ok((q, Statement::LocalAssignment(LocalAssignment { names, values }))),
            Err(e) => Err(e),
        }
    } else {
        let values: Vec<Expression> = Vec::new();
        proof {
            assert(exprs_model(values@) =~= Seq::<ExprModel>::empty());
        }
        Ok((p, Statement::LocalAssignment(LocalAssignment { names, values })))
    }
}

/// `for` name `=` start `,` end [`,` step] `do` block `end` at `pos`.
fn parse_numeric_for(toks: &[Token], pos: usize) -> (r: Result<(usize, Statement), ParseAbort>)
    requires
        pos <= toks.len(),
    ensures
        well_formed(r, pos as int, toks.len() as int),
        stmt_result(r) == numeric_for_at(tv(toks), pos as int),
    decreases toks.len() - pos, 1int,
{
    if !keyword_at(toks, pos, "for") {
        return Err(ParseAbort::NoMatch);
    }
    let var = match identifier(toks, pos + 1) {
        Some(n) => n,
        None => {
            return Err(ParseAbort::NoMatch);
        },
    };
    if !operator_at(toks, pos + 2, "=") {
        return Err(ParseAbort::NoMatch);
    }
    let (p1, start) = match parse_expression(toks, pos + 3) {
        Ok(r) => r,
        Err(e) => {
            return Err(e);
        },
    };
    if !operator_at(toks, p1, ",") {
        return Err(ParseAbort::NoMatch);
    }
    let (p2, end) = match parse_expression(toks, p1 + 1) {
        Ok(r) => r,
        Err(e) => {
            return Err(e);
        },
    };
    let mut p3: usize = p2;
    let mut step: Option<Expression> = None;
    if operator_at(toks, p2, ",") {
        match parse_expression(toks, p2 + 1) {
            Ok((q, st)) => {
                p3 = q;
                step = Some(st);
            },
            Err(e) => {
                return Err(e);
            },
        }
    } else if !keyword_at(toks, p2, "do") {
        return Err(ParseAbort::NoMatch);
    }
    if !keyword_at(toks, p3, "do") {
        return Err(ParseAbort::NoMatch);
    }
    let (p4, body) = match parse_chunk(toks, p3 + 1) {
        Ok(r) => r,
        Err(e) => {
            return Err(e);
        },
    };
    if keyword_at(toks, p4, "end") {
        Ok((p4 + 1, Statement::NumericFor(NumericFor { var, start, end, step, body })))
    } else {
        Err(ParseAbort::NoMatch)
    }
}

pub open spec fn else_ifs_result(r: Result<(usize, Vec<(Expression, Chunk)>), ParseAbort>) -> Option<
    (int, Seq<(ExprModel, Seq<StmtModel>)>),
> {
    match r {
        Ok((p, v)) => Some((p as int, else_ifs_model(v@))),
        Err(_) => None,
    }
}

/// The `elseif` branches that follow at `p`.
fn parse_else_if_tail(toks: &[Token], p: usize) -> (r: Result<(usize, Vec<(Expression, Chunk)>), ParseAbort>)
    requires
        p <= toks.len(),
    ensures
        r matches Ok((q, _)) && p <= q <= toks.len(),
        else_ifs_result(r) == Some(else_if_tail(tv(toks), p as int)),
    decreases toks.len() - p, 1int,
{
    if !keyword_at(toks, p, "elseif") {
        return Ok((p, Vec::new()));
    }
    let (q, cond) = match parse_expression(toks, p + 1) {
        Ok(r) => r,
        Err(ParseAbort::NoMatch) => {
            return Ok((p, Vec::new()));
        },
        Err(e) => {
            return Err(e);
        },
    };
    if !keyword_at(toks, q, "then") {
        return Ok((p, Vec::new()));
    }
    let (r, body) = match parse_chunk(toks, q + 1) {
        Ok(r) => r,
        Err(e) => {
            return Err(e);
        },
    };
    match parse_else_if_tail(toks, r) {
        Ok((end, mut rest)) => {
            let branch = (cond, body);
            proof {
                assert(rest@.insert(0, branch).drop_first() =~= rest@);
            }
            rest.insert(0, branch);
            Ok((end, rest))
        },
        Err(e) => Err(e),
    }
}

/// `if` condition `then` block {`elseif` condition `then` block} [`else` block] `end` at `pos`.
fn parse_if(toks: &[Token], pos: usize) -> (r: Result<(usize, Statement), ParseAbort>)
    requires
        pos <= toks.len(),
    ensures
        well_formed(r, pos as int, toks.len() as int),
        stmt_result(r) == if_at(tv(toks), pos as int),
    decreases toks.len() - pos, 1int,
{
    if !keyword_at(toks, pos, "if") {
        return Err(ParseAbort::NoMatch);
    }
    let (p1, condition) = match parse_expression(toks, pos + 1) {
        Ok(r) => r,
        Err(e) => {
            return Err(e);
        },
    };
    if !keyword_at(toks, p1, "then") {
        return Err(ParseAbort::NoMatch);
    }
    let (p2, body) = match parse_chunk(toks, p1 + 1) {
        Ok(r) => r,
        Err(e) => {
            return Err(e);
        },
    };
    let (p3, else_if_branches) = match parse_else_if_tail(toks, p2) {
        Ok(r) => r,
        Err(e) => {
            return Err(e);
        },
    };
    let mut p4: usize = p3;
    let mut else_branch: Option<Chunk> = None;
    if keyword_at(toks, p3, "else") {
        match parse_chunk(toks, p3 + 1) {
            Ok((q, b)) => {
                p4 = q;
                else_branch = Some(b);
            },
            Err(e) => {
                return Err(e);
            },
        }
    }
    if keyword_at(toks, p4, "end") {
        Ok((p4 + 1, Statement::IfStatement(IfStatement { condition, body, else_if_branches, else_branch })))
    } else {
        Err(ParseAbort::NoMatch)
    }
}

/// `while` condition `do` block `end` at `pos`.
fn parse_while(toks: &[Token], pos: usize) -> (r: Result<(usize, Statement), ParseAbort>)
    requires
        pos <= toks.len(),
    ensures
        well_formed(r, pos as int, toks.len() as int),
        stmt_result(r) == while_at(tv(toks), pos as int),
    decreases toks.len() - pos, 1int,
{
    if !keyword_at(toks, pos, "while") {
        return Err(ParseAbort::NoMatch);
    }
    let (p1, condition) = match parse_expression(toks, pos + 1) {
        Ok(r) => r,
        Err(e) => {
            return Err(e);
        },
    };
    if !keyword_at(toks, p1, "do") {
        return Err(ParseAbort::NoMatch);
    }
    let (p2, body) = match parse_chunk(toks, p1 + 1) {
        Ok(r) => r,
        Err(e) => {
            return Err(e);
        },
    };
    if keyword_at(toks, p2, "end") {
        Ok((p2 + 1, Statement::WhileLoop(WhileLoop { condition, body })))
    } else {
        Err(ParseAbort::NoMatch)
    }
}

/// `repeat` block `until` condition at `pos`.
fn parse_repeat(toks: &[Token], pos: usize) -> (r: Result<(usize, Statement), ParseAbort>)
    requires
        pos <= toks.len(),
    ensures
        well_formed(r, pos as int, toks.len() as int),
        stmt_result(r) == repeat_at(tv(toks), pos as int),
    decreases toks.len() - pos, 1int,
{
    if !keyword_at(toks, pos, "repeat") {
        return Err(ParseAbort::NoMatch);
    }
    let (p1, body) = match parse_chunk(toks, pos + 1) {
        Ok(r) => r,
        Err(e) => {
            return Err(e);
        },
    };
    if !keyword_at(toks, p1, "until") {
        return Err(ParseAbort::NoMatch);
    }
    match parse_expression(toks, p1 + 1) {
        Ok((p2, condition)) => Ok((p2, Statement::RepeatLoop(RepeatLoop { condition, body }))),
        Err(e) => Err(e),
    }
}

/// [`local`] `function` name `(` parameters `)` block `end` at `pos`.
fn parse_function_declaration(toks: &[Token], pos: usize) -> (r: Result<(usize, Statement), ParseAbort>)
    requires
        pos <= toks.len(),
    ensures
        well_formed(r, pos as int, toks.len() as int),
        stmt_result(r) == function_at(tv(toks), pos as int),
    decreases toks.len() - pos, 1int,
{
    let local = keyword_at(toks, pos, "local");
    let q: usize = if local {
        pos + 1
    } else {
        pos
    };
    if !keyword_at(toks, q, "function") {
        return Err(ParseAbort::NoMatch);
    }
    let name = match identifier(toks, q + 1) {
        Some(n) => n,
        None => {
            return Err(ParseAbort::NoMatch);
        },
    };
    if !open_paren_at(toks, q + 2) {
        return Err(ParseAbort::NoMatch);
    }
    let (r, parameters) = parse_params(toks, q + 3);
    if !close_paren_at(toks, r) {
        return Err(ParseAbort::NoMatch);
    }
    let (p, body) = match parse_chunk(toks, r + 1) {
        Ok(x) => x,
        Err(e) => {
            return Err(e);
        },
    };
    if keyword_at(toks, p, "end") {
        Ok((p + 1, Statement::FunctionDeclaration(FunctionDeclaration { name, body, parameters, local })))
    } else {
        Err(ParseAbort::NoMatch)
    }
}

/// The text that a token of kind `k` was read from.
pub fn token_text(k: &TokenKind) -> (r: String)
    ensures
        r@ == kind_text(k@),
{
    match k {
        TokenKind::Keyword(t) => t.clone(),
        TokenKind::Operator(t) => t.clone(),
        TokenKind::Identifier(t) => t.clone(),
        TokenKind::NumberLiteral(t) => t.clone(),
        TokenKind::BoolLiteral(b) => if *b {
            "true".to_owned()
        } else {
            "false".to_owned()
        },
        TokenKind::NilLiteral => "nil".to_owned(),
        TokenKind::OpenParen => "(".to_owned(),
        TokenKind::CloseParen => ")".to_owned(),
    }
}

pub open spec fn digit_char(d: nat) -> char {
    if d == 0 {
        '0'
    } else if d == 1 {
        '1'
    } else if d == 2 {
        '2'
    } else if d == 3 {
        '3'
    } else if d == 4 {
        '4'
    } else if d == 5 {
        '5'
    } else if d == 6 {
        '6'
    } else if d == 7 {
        '7'
    } else if d == 8 {
        '8'
    } else {
        '9'
    }
}

/// `n` written in decimal, without leading zeros.
pub open spec fn decimal(n: nat) -> Seq<char>
    decreases n,
{
    if n < 10 {
        seq![digit_char(n)]
    } else {
        decimal(n / 10) + seq![digit_char(n % 10)]
    }
}

fn digit_str(d: usize) -> (r: &'static str)
    requires
        d < 10,
    ensures
        r@ == seq![digit_char(d as nat)],
{
    match d {
        0 => {
            proof {
                reveal_strlit("0");
            }
            assert("0"@ =~= seq!['0']);
            "0"
        },
        1 => {
            proof {
                reveal_strlit("1");
            }
            assert("1"@ =~= seq!['1']);
            "1"
        },
        2 => {
            proof {
                reveal_strlit("2");
            }
            assert("2"@ =~= seq!['2']);
            "2"
        },
        3 => {
            proof {
                reveal_strlit("3");
            }
            assert("3"@ =~= seq!['3']);
            "3"
        },
        4 => {
            proof {
                reveal_strlit("4");
            }
            assert("4"@ =~= seq!['4']);
            "4"
        },
        5 => {
            proof {
                reveal_strlit("5");
            }
            assert("5"@ =~= seq!['5']);
            "5"
        },
        6 => {
            proof {
                reveal_strlit("6");
            }
            assert("6"@ =~= seq!['6']);
            "6"
        },
        7 => {
            proof {
                reveal_strlit("7");
            }
            assert("7"@ =~= seq!['7']);
            "7"
        },
        8 => {
            proof {
                reveal_strlit("8");
            }
            assert("8"@ =~= seq!['8']);
            "8"
        },
        _ => {
            proof {
                reveal_strlit("9");
            }
            assert("9"@ =~= seq!['9']);
            "9"
        },
    }
}

/// `n` written in decimal.
pub fn decimal_string(n: usize) -> (r: String)
    ensures
        r@ == decimal(n as nat),
{
    let mut out = digit_str(n % 10).to_owned();
    let mut m: usize = n / 10;
    loop
        invariant
            m <= n,
            decimal(n as nat) == (if m > 0 {
                decimal(m as nat)
            } else {
                Seq::<char>::empty()
            }) + out@,
        decreases m,
    {
        if m == 0 {
            assert(Seq::<char>::empty() + out@ =~= out@);
            return out;
        }
        let ghost old_out = out@;
        out = digit_str(m % 10).to_owned().concat(out.as_str());
        proof {
            assert(decimal(m as nat) == (if m / 10 > 0 {
                decimal((m / 10) as nat)
            } else {
                Seq::<char>::empty()
            }) + seq![digit_char((m % 10) as nat)]);
            assert((if m / 10 > 0 {
                decimal((m / 10) as nat)
            } else {
                Seq::<char>::empty()
            }) + seq![digit_char((m % 10) as nat)] + old_out =~= (if m / 10 > 0 {
                decimal((m / 10) as nat)
            } else {
                Seq::<char>::empty()
            }) + out@);
        }
        m = m / 10;
    }
}

/// What a whole token sequence parses to: the block at its start, where that
/// block takes every token.
pub open spec fn parse_spec(ts: Seq<TokenModel>) -> Option<Seq<StmtModel>> {
    if chunk_at(ts, 0).0 == ts.len() {
        Some(chunk_at(ts, 0).1)
    } else {
        None
    }
}

/// The message for a token left after the block: its text and position.
pub open spec fn leftover_message(t: TokenModel) -> Seq<char> {
    "A token was left at the end of the stream: "@ + kind_text(t.kind) + " (line "@ + decimal(
        t.line as nat,
    ) + ", column "@ + decimal(t.column as nat) + ")"@
}

/// Parses a whole token sequence as a block. Fails where a token is left
/// after the longest block at the start, naming that token and its position.
pub fn parse_from_tokens(tokens: &[Token]) -> (r: Result<Chunk, String>)
    ensures
        match r {
            Ok(c) => parse_spec(tv(tokens)) == Some(chunk_model(c)),
            Err(m) => {
                &&& parse_spec(tv(tokens)) is None
                &&& m@ == leftover_message(tv(tokens)[chunk_at(tv(tokens), 0).0])
            },
        },
{
    let (p, chunk) = match parse_chunk(tokens, 0) {
        Ok(r) => r,
        Err(ParseAbort::NoMatch) => {
            return Err("No error reported".to_owned());
        },
        Err(ParseAbort::Error(message)) => {
            return Err(message);
        },
    };
    if p < tokens.len() {
        let t = &tokens[p];
        let text = token_text(&t.kind);
        let line = decimal_string(t.line);
        let column = decimal_string(t.column);
        let message = "A token was left at the end of the stream: ".to_owned().concat(
            text.as_str(),
        ).concat(" (line ").concat(line.as_str()).concat(", column ").concat(column.as_str()).concat(
            ")",
        );
        Err(message)
    } else {
        Ok(chunk)
    }
}

} // verus!
