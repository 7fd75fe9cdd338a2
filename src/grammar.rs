//! The grammar as spec functions over the token sequence: each rule maps a
//! position to the tree it reads there and the position after it, or to
//! `None` where it does not apply. Alternatives are tried in a fixed order and
//! the first that applies wins. Rules that go on from a position that an
//! earlier part returned check that it lies ahead; every rule that applies
//! reads at least one token, so these checks only make termination evident.

use vstd::prelude::*;
use crate::ast::{BinaryOpKind, CallModel, ExprModel, KeyModel, StmtModel, UnaryOpKind};
use crate::tokenizer::{TokenKindModel, TokenModel};

verus! {

pub open spec fn is_keyword(ts: Seq<TokenModel>, p: int, w: Seq<char>) -> bool {
    0 <= p < ts.len() && ts[p].kind == TokenKindModel::Keyword(w)
}

pub open spec fn is_operator(ts: Seq<TokenModel>, p: int, w: Seq<char>) -> bool {
    0 <= p < ts.len() && ts[p].kind == TokenKindModel::Operator(w)
}

pub open spec fn is_open_paren(ts: Seq<TokenModel>, p: int) -> bool {
    0 <= p < ts.len() && ts[p].kind is OpenParen
}

pub open spec fn is_close_paren(ts: Seq<TokenModel>, p: int) -> bool {
    0 <= p < ts.len() && ts[p].kind is CloseParen
}

pub open spec fn ident_at(ts: Seq<TokenModel>, p: int) -> Option<Seq<char>> {
    if 0 <= p < ts.len() && ts[p].kind is Identifier {
        Some(ts[p].kind->Identifier_0)
    } else {
        None
    }
}

pub open spec fn number_at(ts: Seq<TokenModel>, p: int) -> Option<Seq<char>> {
    if 0 <= p < ts.len() && ts[p].kind is NumberLiteral {
        Some(ts[p].kind->NumberLiteral_0)
    } else {
        None
    }
}

/// `true`, `false` or `nil` at `p`.
pub open spec fn literal_at(ts: Seq<TokenModel>, p: int) -> Option<ExprModel> {
    if 0 <= p < ts.len() && ts[p].kind is BoolLiteral {
        Some(ExprModel::Bool(ts[p].kind->BoolLiteral_0))
    } else if 0 <= p < ts.len() && ts[p].kind is NilLiteral {
        Some(ExprModel::Nil)
    } else {
        None
    }
}

pub open spec fn unary_at(ts: Seq<TokenModel>, p: int) -> Option<UnaryOpKind> {
    if is_operator(ts, p, "-"@) {
        Some(UnaryOpKind::Negate)
    } else if is_operator(ts, p, "#"@) {
        Some(UnaryOpKind::Length)
    } else if is_keyword(ts, p, "not"@) {
        Some(UnaryOpKind::BooleanNot)
    } else {
        None
    }
}

pub open spec fn binary_at(ts: Seq<TokenModel>, p: int) -> Option<BinaryOpKind> {
    if is_operator(ts, p, "+"@) {
        Some(BinaryOpKind::Add)
    } else if is_operator(ts, p, "-"@) {
        Some(BinaryOpKind::Subtract)
    } else if is_operator(ts, p, "*"@) {
        Some(BinaryOpKind::Multiply)
    } else if is_operator(ts, p, "/"@) {
        Some(BinaryOpKind::Divide)
    } else if is_operator(ts, p, "^"@) {
        Some(BinaryOpKind::Exponent)
    } else if is_operator(ts, p, ".."@) {
        Some(BinaryOpKind::Concat)
    } else {
        None
    }
}

/// `p` lies after `from` and within the tokens.
pub open spec fn ahead(ts: Seq<TokenModel>, from: int, p: int) -> bool {
    from < p <= ts.len()
}

/// The names that follow at `p`, each after a `,`; the list ends before a `,`
/// that no name follows. They take two tokens each.
pub open spec fn name_tail(ts: Seq<TokenModel>, p: int) -> Seq<Seq<char>>
    decreases ts.len() - p,
{
    if 0 <= p && is_operator(ts, p, ","@) && ident_at(ts, p + 1) is Some {
        seq![ident_at(ts, p + 1)->0] + name_tail(ts, p + 2)
    } else {
        seq![]
    }
}

/// Zero or more names separated by `,`, at `p`.
pub open spec fn params_at(ts: Seq<TokenModel>, p: int) -> Seq<Seq<char>> {
    match ident_at(ts, p) {
        Some(n) => seq![n] + name_tail(ts, p + 1),
        None => seq![],
    }
}

/// The number of tokens that `params_at(ts, p)` takes.
pub open spec fn params_width(ts: Seq<TokenModel>, p: int) -> int {
    if ident_at(ts, p) is Some {
        2 * params_at(ts, p).len() - 1
    } else {
        0
    }
}

/// A block: statements for as long as one applies.
pub open spec fn chunk_at(ts: Seq<TokenModel>, pos: int) -> (int, Seq<StmtModel>)
    decreases ts.len() - pos, 6int,
{
    match statement_at(ts, pos) {
        Some((p, s)) => if ahead(ts, pos, p) {
            let rest = chunk_at(ts, p);
            (rest.0, seq![s] + rest.1)
        } else {
            (pos, seq![])
        },
        None => (pos, seq![]),
    }
}

/// The first of these that applies: local assignment, call, numeric `for`,
/// `if`, `while`, `repeat`, function declaration.
pub open spec fn statement_at(ts: Seq<TokenModel>, pos: int) -> Option<(int, StmtModel)>
    decreases ts.len() - pos, 5int,
{
    if let Some(r) = local_assignment_at(ts, pos) {
        Some(r)
    } else if let Some((p, c)) = call_at(ts, pos) {
        Some((p, StmtModel::Call(c)))
    } else if let Some(r) = numeric_for_at(ts, pos) {
        Some(r)
    } else if let Some(r) = if_at(ts, pos) {
        Some(r)
    } else if let Some(r) = while_at(ts, pos) {
        Some(r)
    } else if let Some(r) = repeat_at(ts, pos) {
        Some(r)
    } else {
        function_at(ts, pos)
    }
}

/// `local` names [`=` expressions].
pub open spec fn local_assignment_at(ts: Seq<TokenModel>, pos: int) -> Option<(int, StmtModel)>
    decreases ts.len() - pos, 1int,
{
    if is_keyword(ts, pos, "local"@) && ident_at(ts, pos + 1) is Some {
        let tail = name_tail(ts, pos + 2);
        let names = seq![ident_at(ts, pos + 1)->0] + tail;
        let p = pos + 2 + 2 * tail.len();
        if is_operator(ts, p, "="@) {
            match expr_list_at(ts, p + 1) {
                Some((q, values)) => Some((q, StmtModel::Local { names, values })),
                None => None,
            }
        } else {
            Some((p, StmtModel::Local { names, values: seq![] }))
        }
    } else {
        None
    }
}

/// One or more expressions separated by `,`.
pub open spec fn expr_list_at(ts: Seq<TokenModel>, pos: int) -> Option<(int, Seq<ExprModel>)>
    decreases ts.len() - pos, 3int,
{
    match expression_at(ts, pos) {
        Some((p, e)) => if ahead(ts, pos, p) {
            let rest = expr_tail(ts, p);
            Some((rest.0, seq![e] + rest.1))
        } else {
            None
        },
        None => None,
    }
}

/// The expressions that follow at `p`, each after a `,`; the list ends before a
/// `,` that no expression follows.
pub open spec fn expr_tail(ts: Seq<TokenModel>, p: int) -> (int, Seq<ExprModel>)
    decreases ts.len() - p, 3int,
{
    if is_operator(ts, p, ","@) {
        match expression_at(ts, p + 1) {
            Some((q, e)) => if ahead(ts, p + 1, q) {
                let rest = expr_tail(ts, q);
                (rest.0, seq![e] + rest.1)
            } else {
                (p, seq![])
            },
            None => (p, seq![]),
        }
    } else {
        (p, seq![])
    }
}

/// Zero or more expressions separated by `,`.
pub open spec fn args_at(ts: Seq<TokenModel>, pos: int) -> (int, Seq<ExprModel>)
    decreases ts.len() - pos, 4int,
{
    match expr_list_at(ts, pos) {
        Some(r) => r,
        None => (pos, seq![]),
    }
}

/// name `(` arguments `)`.
pub open spec fn call_at(ts: Seq<TokenModel>, pos: int) -> Option<(int, CallModel)>
    decreases ts.len() - pos, 0int,
{
    if ident_at(ts, pos) is Some && is_open_paren(ts, pos + 1) {
        let (p, args) = args_at(ts, pos + 2);
        if is_close_paren(ts, p) {
            Some(
                (
                    p + 1,
                    CallModel { name: Box::new(ExprModel::Name(ident_at(ts, pos)->0)), args },
                ),
            )
        } else {
            None
        }
    } else {
        None
    }
}

/// `for` name `=` start `,` end [`,` step] `do` block `end`.
pub open spec fn numeric_for_at(ts: Seq<TokenModel>, pos: int) -> Option<(int, StmtModel)>
    decreases ts.len() - pos, 1int,
{
    if is_keyword(ts, pos, "for"@) && ident_at(ts, pos + 1) is Some && is_operator(
        ts,
        pos + 2,
        "="@,
    ) {
        match expression_at(ts, pos + 3) {
            Some((p1, start)) => if ahead(ts, pos + 3, p1) && is_operator(ts, p1, ","@) {
                match expression_at(ts, p1 + 1) {
                    Some((p2, end)) => if !ahead(ts, p1 + 1, p2) {
                        None
                    } else {
                        let step: Option<(int, Option<ExprModel>)> = if is_operator(
                            ts,
                            p2,
                            ","@,
                        ) {
                            match expression_at(ts, p2 + 1) {
                                Some((p3, st)) => Some((p3, Some(st))),
                                None => None,
                            }
                        } else if is_keyword(ts, p2, "do"@) {
                            Some((p2, None))
                        } else {
                            None
                        };
                        match step {
                            Some((p3, step)) => if ahead(ts, pos, p3) && is_keyword(
                                ts,
                                p3,
                                "do"@,
                            ) {
                                let (p4, body) = chunk_at(ts, p3 + 1);
                                if is_keyword(ts, p4, "end"@) {
                                    Some(
                                        (
                                            p4 + 1,
                                            StmtModel::For {
                                                var: ident_at(ts, pos + 1)->0,
                                                start,
                                                end,
                                                step,
                                                body,
                                            },
                                        ),
                                    )
                                } else {
                                    None
                                }
                            } else {
                                None
                            },
                            None => None,
                        }
                    },
                    None => None,
                }
            } else {
                None
            },
            None => None,
        }
    } else {
        None
    }
}

/// The `elseif` condition `then` block branches that follow at `p`.
pub open spec fn else_if_tail(ts: Seq<TokenModel>, p: int) -> (int, Seq<(ExprModel, Seq<StmtModel>)>)
    decreases ts.len() - p, 1int,
{
    if is_keyword(ts, p, "elseif"@) {
        match expression_at(ts, p + 1) {
            Some((q, cond)) => if ahead(ts, p + 1, q) && is_keyword(ts, q, "then"@) {
                let (r, body) = chunk_at(ts, q + 1);
                if ahead(ts, q, r) {
                    let rest = else_if_tail(ts, r);
                    (rest.0, seq![(cond, body)] + rest.1)
                } else {
                    (p, seq![])
                }
            } else {
                (p, seq![])
            },
            None => (p, seq![]),
        }
    } else {
        (p, seq![])
    }
}

/// `if` condition `then` block {`elseif` condition `then` block} [`else` block] `end`.
pub open spec fn if_at(ts: Seq<TokenModel>, pos: int) -> Option<(int, StmtModel)>
    decreases ts.len() - pos, 1int,
{
    if is_keyword(ts, pos, "if"@) {
        match expression_at(ts, pos + 1) {
            Some((p1, cond)) => if ahead(ts, pos + 1, p1) && is_keyword(ts, p1, "then"@) {
                let (p2, body) = chunk_at(ts, p1 + 1);
                if ahead(ts, p1, p2) {
                    let (p3, else_ifs) = else_if_tail(ts, p2);
                    if p2 <= p3 <= ts.len() {
                        let (p4, else_body) = if is_keyword(ts, p3, "else"@) {
                            let (q, b) = chunk_at(ts, p3 + 1);
                            (q, Some(b))
                        } else {
                            (p3, None)
                        };
                        if is_keyword(ts, p4, "end"@) {
                            Some((p4 + 1, StmtModel::If { cond, body, else_ifs, else_body }))
                        } else {
                            None
                        }
                    } else {
                        None
                    }
                } else {
                    None
                }
            } else {
                None
            },
            None => None,
        }
    } else {
        None
    }
}

/// `while` condition `do` block `end`.
pub open spec fn while_at(ts: Seq<TokenModel>, pos: int) -> Option<(int, StmtModel)>
    decreases ts.len() - pos, 1int,
{
    if is_keyword(ts, pos, "while"@) {
        match expression_at(ts, pos + 1) {
            Some((p1, cond)) => if ahead(ts, pos + 1, p1) && is_keyword(ts, p1, "do"@) {
                let (p2, body) = chunk_at(ts, p1 + 1);
                if is_keyword(ts, p2, "end"@) {
                    Some((p2 + 1, StmtModel::While { cond, body }))
                } else {
                    None
                }
            } else {
                None
            },
            None => None,
        }
    } else {
        None
    }
}

/// `repeat` block `until` condition.
pub open spec fn repeat_at(ts: Seq<TokenModel>, pos: int) -> Option<(int, StmtModel)>
    decreases ts.len() - pos, 1int,
{
    if is_keyword(ts, pos, "repeat"@) {
        let (p1, body) = chunk_at(ts, pos + 1);
        if ahead(ts, pos, p1) && is_keyword(ts, p1, "until"@) {
            match expression_at(ts, p1 + 1) {
                Some((p2, cond)) => Some((p2, StmtModel::Repeat { body, cond })),
                None => None,
            }
        } else {
            None
        }
    } else {
        None
    }
}

/// [`local`] `function` name `(` parameters `)` block `end`.
pub open spec fn function_at(ts: Seq<TokenModel>, pos: int) -> Option<(int, StmtModel)>
    decreases ts.len() - pos, 1int,
{
    let local = is_keyword(ts, pos, "local"@);
    let q = if local {
        pos + 1
    } else {
        pos
    };
    if is_keyword(ts, q, "function"@) && ident_at(ts, q + 1) is Some && is_open_paren(ts, q + 2) {
        let params = params_at(ts, q + 3);
        let r = q + 3 + params_width(ts, q + 3);
        if ahead(ts, pos, r) && is_close_paren(ts, r) {
            let (p, body) = chunk_at(ts, r + 1);
            if is_keyword(ts, p, "end"@) {
                Some(
                    (
                        p + 1,
                        StmtModel::Function { name: ident_at(ts, q + 1)->0, params, body, local },
                    ),
                )
            } else {
                None
            }
        } else {
            None
        }
    } else {
        None
    }
}

/// A unary operator and its operand; or a value, and, where a binary operator
/// follows, that operator and the expression after it (so binary operators
/// group to the right, with no precedence).
pub open spec fn expression_at(ts: Seq<TokenModel>, pos: int) -> Option<(int, ExprModel)>
    decreases ts.len() - pos, 2int,
{
    if let Some(op) = unary_at(ts, pos) {
        match expression_at(ts, pos + 1) {
            Some((p, arg)) => Some((p, ExprModel::Unary(op, Box::new(arg)))),
            None => None,
        }
    } else {
        match value_at(ts, pos) {
            Some((p, left)) => if !ahead(ts, pos, p) {
                None
            } else if let Some(op) = binary_at(ts, p) {
                match expression_at(ts, p + 1) {
                    Some((q, right)) => Some(
                        (q, ExprModel::Binary(op, Box::new(left), Box::new(right))),
                    ),
                    None => None,
                }
            } else {
                Some((p, left))
            },
            None => None,
        }
    }
}

/// The first of these that applies: number, `true`/`false`/`nil`, call, name,
/// table, parenthesised expression.
pub open spec fn value_at(ts: Seq<TokenModel>, pos: int) -> Option<(int, ExprModel)>
    decreases ts.len() - pos, 1int,
{
    if let Some(t) = number_at(ts, pos) {
        Some((pos + 1, ExprModel::Number(t)))
    } else if let Some(v) = literal_at(ts, pos) {
        Some((pos + 1, v))
    } else if let Some((p, c)) = call_at(ts, pos) {
        Some((p, ExprModel::Call(c)))
    } else if let Some(n) = ident_at(ts, pos) {
        Some((pos + 1, ExprModel::Name(n)))
    } else if let Some((p, items)) = table_at(ts, pos) {
        Some((p, ExprModel::Table(items)))
    } else {
        paren_at(ts, pos)
    }
}

/// `(` expression `)`.
pub open spec fn paren_at(ts: Seq<TokenModel>, pos: int) -> Option<(int, ExprModel)>
    decreases ts.len() - pos, 0int,
{
    if is_open_paren(ts, pos) {
        match expression_at(ts, pos + 1) {
            Some((p, e)) => if is_close_paren(ts, p) {
                Some((p + 1, ExprModel::Paren(Box::new(e))))
            } else {
                None
            },
            None => None,
        }
    } else {
        None
    }
}

pub open spec fn is_table_separator(ts: Seq<TokenModel>, p: int) -> bool {
    is_operator(ts, p, ","@) || is_operator(ts, p, ";"@)
}

/// `{` entries `}`, the entries separated by `,` or `;`, with an optional
/// separator after the last.
pub open spec fn table_at(ts: Seq<TokenModel>, pos: int) -> Option<
    (int, Seq<(Option<KeyModel>, ExprModel)>),
>
    decreases ts.len() - pos, 0int,
{
    if is_operator(ts, pos, "{"@) {
        let (p, items) = table_items_at(ts, pos + 1);
        if is_operator(ts, p, "}"@) {
            Some((p + 1, items))
        } else {
            None
        }
    } else {
        None
    }
}

/// Zero or more table entries.
pub open spec fn table_items_at(ts: Seq<TokenModel>, pos: int) -> (
    int,
    Seq<(Option<KeyModel>, ExprModel)>,
)
    decreases ts.len() - pos, 4int,
{
    match table_item_at(ts, pos) {
        Some((p, item)) => if ahead(ts, pos, p) {
            let rest = table_item_tail(ts, p);
            (rest.0, seq![item] + rest.1)
        } else {
            (pos, seq![])
        },
        None => (pos, seq![]),
    }
}

/// The entries that follow at `p`, each after a separator; a separator that no
/// entry follows is taken as well.
pub open spec fn table_item_tail(ts: Seq<TokenModel>, p: int) -> (
    int,
    Seq<(Option<KeyModel>, ExprModel)>,
)
    decreases ts.len() - p, 1int,
{
    if is_table_separator(ts, p) {
        match table_item_at(ts, p + 1) {
            Some((q, item)) => if ahead(ts, p + 1, q) {
                let rest = table_item_tail(ts, q);
                (rest.0, seq![item] + rest.1)
            } else {
                (p + 1, seq![])
            },
            None => (p + 1, seq![]),
        }
    } else {
        (p, seq![])
    }
}

/// An entry: a name or `[` expression `]` followed by `=`, or no key; then the value.
pub open spec fn table_item_at(ts: Seq<TokenModel>, pos: int) -> Option<
    (int, (Option<KeyModel>, ExprModel)),
>
    decreases ts.len() - pos, 3int,
{
    let key: Option<(int, Option<KeyModel>)> = if let Some(n) = ident_at(ts, pos) {
        Some((pos + 1, Some(KeyModel::Name(n))))
    } else if is_operator(ts, pos, "["@) {
        match expression_at(ts, pos + 1) {
            Some((p, k)) => if is_operator(ts, p, "]"@) {
                Some((p + 1, Some(KeyModel::Expr(k))))
            } else {
                Some((pos, None))
            },
            None => Some((pos, None)),
        }
    } else {
        Some((pos, None))
    };
    match key {
        Some((p, Some(k))) => if ahead(ts, pos, p) && is_operator(ts, p, "="@) {
            match expression_at(ts, p + 1) {
                Some((q, v)) => Some((q, (Some(k), v))),
                None => None,
            }
        } else {
            None
        },
        _ => match expression_at(ts, pos) {
            Some((q, v)) => Some((q, (None, v))),
            None => None,
        },
    }
}

} // verus!
