//! The syntax tree, and its mathematical model.

use vstd::prelude::*;

verus! {

broadcast use vstd::std_specs::vec::group_vec_axioms;

#[derive(Debug, Clone, Copy, PartialEq, Eq)]
pub enum UnaryOpKind {
    /// `-`
    Negate,
    /// `not`
    BooleanNot,
    /// `#`
    Length,
}

#[derive(Debug, Clone, Copy, PartialEq, Eq)]
pub enum BinaryOpKind {
    /// `+`
    Add,
    /// `-`
    Subtract,
    /// `*`
    Multiply,
    /// `/`
    Divide,
    /// `^`
    Exponent,
    /// `..`
    Concat,
}

#[derive(Debug)]
pub struct UnaryOp {
    pub operator: UnaryOpKind,
    pub argument: Box<Expression>,
}

#[derive(Debug)]
pub struct BinaryOp {
    pub operator: BinaryOpKind,
    pub left: Box<Expression>,
    pub right: Box<Expression>,
}

#[derive(Debug)]
pub struct FunctionCall {
    pub name_expression: Box<Expression>,
    pub arguments: Vec<Expression>,
}

/// names `=` values; the grammar has no rule that produces it.
#[derive(Debug)]
pub struct Assignment {
    pub names: Vec<String>,
    pub values: Vec<Expression>,
}

#[derive(Debug)]
pub struct LocalAssignment {
    pub names: Vec<String>,
    pub values: Vec<Expression>,
}

#[derive(Debug)]
pub struct NumericFor {
    pub var: String,
    pub start: Expression,
    pub end: Expression,
    pub step: Option<Expression>,
    pub body: Chunk,
}

#[derive(Debug)]
pub struct IfStatement {
    pub condition: Expression,
    pub body: Chunk,
    pub else_if_branches: Vec<(Expression, Chunk)>,
    pub else_branch: Option<Chunk>,
}

#[derive(Debug)]
pub struct WhileLoop {
    pub condition: Expression,
    pub body: Chunk,
}

#[derive(Debug)]
pub struct RepeatLoop {
    pub condition: Expression,
    pub body: Chunk,
}

#[derive(Debug)]
pub struct FunctionDeclaration {
    pub name: String,
    pub body: Chunk,
    pub parameters: Vec<String>,
    pub local: bool,
}

#[derive(Debug)]
pub enum Expression {
    Nil,
    Bool(bool),
    Number(String),
    String(String),
    VarArg,
    Table(TableLiteral),
    FunctionCall(FunctionCall),
    Name(String),
    ParenExpression(Box<Expression>),
    UnaryOp(UnaryOp),
    BinaryOp(BinaryOp),
}

#[derive(Debug)]
pub enum TableKey {
    /// `[` expression `]`
    Expression(Expression),
    /// A bare name.
    Name(String),
}

#[derive(Debug)]
pub struct TableLiteral {
    /// The entries in order; an entry without a key is positional.
    pub items: Vec<(Option<TableKey>, Expression)>,
}

#[derive(Debug)]
pub enum Statement {
    Assignment(Assignment),
    LocalAssignment(LocalAssignment),
    FunctionCall(FunctionCall),
    NumericFor(NumericFor),
    IfStatement(IfStatement),
    WhileLoop(WhileLoop),
    RepeatLoop(RepeatLoop),
    FunctionDeclaration(FunctionDeclaration),
}

/// A block of statements, and the root of the tree.
#[derive(Debug)]
pub struct Chunk {
    pub statements: Vec<Statement>,
}

/// An expression, with text as sequences of characters and lists as sequences.
pub enum ExprModel {
    Nil,
    Bool(bool),
    Number(Seq<char>),
    Str(Seq<char>),
    VarArg,
    Table(Seq<(Option<KeyModel>, ExprModel)>),
    Call(CallModel),
    Name(Seq<char>),
    Paren(Box<ExprModel>),
    Unary(UnaryOpKind, Box<ExprModel>),
    Binary(BinaryOpKind, Box<ExprModel>, Box<ExprModel>),
}

pub struct CallModel {
    pub name: Box<ExprModel>,
    pub args: Seq<ExprModel>,
}

pub enum KeyModel {
    Expr(ExprModel),
    Name(Seq<char>),
}

/// A statement; a block is a sequence of them.
pub enum StmtModel {
    Assign { names: Seq<Seq<char>>, values: Seq<ExprModel> },
    Local { names: Seq<Seq<char>>, values: Seq<ExprModel> },
    Call(CallModel),
    For {
        var: Seq<char>,
        start: ExprModel,
        end: ExprModel,
        step: Option<ExprModel>,
        body: Seq<StmtModel>,
    },
    If {
        cond: ExprModel,
        body: Seq<StmtModel>,
        else_ifs: Seq<(ExprModel, Seq<StmtModel>)>,
        else_body: Option<Seq<StmtModel>>,
    },
    While { cond: ExprModel, body: Seq<StmtModel> },
    Repeat { body: Seq<StmtModel>, cond: ExprModel },
    Function { name: Seq<char>, params: Seq<Seq<char>>, body: Seq<StmtModel>, local: bool },
}

pub open spec fn names_model(v: Seq<String>) -> Seq<Seq<char>> {
    v.map_values(|s: String| s@)
}

pub open spec fn expr_model(e: Expression) -> ExprModel
    decreases e,
{
    match e {
        Expression::Nil => ExprModel::Nil,
        Expression::Bool(b) => ExprModel::Bool(b),
        Expression::Number(t) => ExprModel::Number(t@),
        Expression::String(t) => ExprModel::Str(t@),
        Expression::VarArg => ExprModel::VarArg,
        Expression::Table(t) => ExprModel::Table(items_model(t.items@)),
        Expression::FunctionCall(c) => ExprModel::Call(call_model(c)),
        Expression::Name(t) => ExprModel::Name(t@),
        Expression::ParenExpression(inner) => ExprModel::Paren(Box::new(expr_model(*inner))),
        Expression::UnaryOp(u) => ExprModel::Unary(u.operator, Box::new(expr_model(*u.argument))),
        Expression::BinaryOp(b) => ExprModel::Binary(
            b.operator,
            Box::new(expr_model(*b.left)),
            Box::new(expr_model(*b.right)),
        ),
    }
}

pub open spec fn call_model(c: FunctionCall) -> CallModel
    decreases c,
{
    CallModel { name: Box::new(expr_model(*c.name_expression)), args: exprs_model(c.arguments@) }
}

pub open spec fn exprs_model(v: Seq<Expression>) -> Seq<ExprModel>
    decreases v,
{
    if v.len() == 0 {
        seq![]
    } else {
        seq![expr_model(v[0])] + exprs_model(v.drop_first())
    }
}

pub open spec fn key_model(k: Option<TableKey>) -> Option<KeyModel>
    decreases k,
{
    match k {
        Some(TableKey::Expression(e)) => Some(KeyModel::Expr(expr_model(e))),
        Some(TableKey::Name(n)) => Some(KeyModel::Name(n@)),
        None => None,
    }
}

pub open spec fn items_model(v: Seq<(Option<TableKey>, Expression)>) -> Seq<
    (Option<KeyModel>, ExprModel),
>
    decreases v,
{
    if v.len() == 0 {
        seq![]
    } else {
        seq![(key_model(v[0].0), expr_model(v[0].1))] + items_model(v.drop_first())
    }
}

pub open spec fn opt_expr_model(e: Option<Expression>) -> Option<ExprModel> {
    match e {
        Some(x) => Some(expr_model(x)),
        None => None,
    }
}

pub open spec fn stmt_model(s: Statement) -> StmtModel
    decreases s,
{
    match s {
        Statement::Assignment(a) => StmtModel::Assign {
            names: names_model(a.names@),
            values: exprs_model(a.values@),
        },
        Statement::LocalAssignment(a) => StmtModel::Local {
            names: names_model(a.names@),
            values: exprs_model(a.values@),
        },
        Statement::FunctionCall(c) => StmtModel::Call(call_model(c)),
        Statement::NumericFor(f) => StmtModel::For {
            var: f.var@,
            start: expr_model(f.start),
            end: expr_model(f.end),
            step: match f.step {
                Some(x) => Some(expr_model(x)),
                None => None,
            },
            body: chunk_model(f.body),
        },
        Statement::IfStatement(i) => StmtModel::If {
            cond: expr_model(i.condition),
            body: chunk_model(i.body),
            else_ifs: else_ifs_model(i.else_if_branches@),
            else_body: match i.else_branch {
                Some(c) => Some(chunk_model(c)),
                None => None,
            },
        },
        Statement::WhileLoop(w) => StmtModel::While {
            cond: expr_model(w.condition),
            body: chunk_model(w.body),
        },
        Statement::RepeatLoop(r) => StmtModel::Repeat {
            body: chunk_model(r.body),
            cond: expr_model(r.condition),
        },
        Statement::FunctionDeclaration(f) => StmtModel::Function {
            name: f.name@,
            params: names_model(f.parameters@),
            body: chunk_model(f.body),
            local: f.local,
        },
    }
}

pub open spec fn chunk_model(c: Chunk) -> Seq<StmtModel>
    decreases c,
{
    stmts_model(c.statements@)
}

pub open spec fn stmts_model(v: Seq<Statement>) -> Seq<StmtModel>
    decreases v,
{
    if v.len() == 0 {
        seq![]
    } else {
        seq![stmt_model(v[0])] + stmts_model(v.drop_first())
    }
}

pub open spec fn else_ifs_model(v: Seq<(Expression, Chunk)>) -> Seq<(ExprModel, Seq<StmtModel>)>
    decreases v,
{
    if v.len() == 0 {
        seq![]
    } else {
        seq![(expr_model(v[0].0), chunk_model(v[0].1))] + else_ifs_model(v.drop_first())
    }
}

} // verus!
