//! Expressions: the precedence ladder from the ternary operator down to
//! literals, names, calls and parenthesized sub-expressions.
use vstd::prelude::*;

use crate::idents::{spec_symbol, symbol_span};
use crate::numbers::{number_at, spec_number};
use crate::text::{advances, agrees, char_is, finish, outcome, ParseError, Source, SpecResult};
use crate::whitespace::{skip, skip_ws};

verus! {

broadcast use vstd::std_specs::vec::group_vec_axioms, vstd::seq::group_seq_axioms;

/// A prefix operator: `!`, `-` or `~`.
#[derive(Debug, PartialEq, Eq, Clone, Copy)]
pub enum UnaryOperator {
    LogicNot,
    Minus,
    BitwiseNot,
}

/// An infix operator, each tied to one precedence level.
#[derive(Debug, PartialEq, Eq, Clone, Copy)]
pub enum BinaryOperator {
    LogicOr,
    LogicAnd,
    BitwiseOr,
    BitwiseAnd,
    Equals,
    NotEquals,
    Lesser,
    Greater,
    LesserOrEquals,
    GreaterOrEquals,
    ShiftRight,
    ShiftLeft,
    Plus,
    Minus,
    Multiply,
    Divide,
    Remainder,
}

/// An expression tree; each node owns its children.
#[allow(inconsistent_fields)]
#[derive(Debug, PartialEq)]
pub enum Expression {
    Ident(String),
    Number(u64),
    Call { function: String, arguments: Vec<Expression> },
    UnaryOp { operator: UnaryOperator, right: Box<Expression> },
    BinaryOp { left: Box<Expression>, operator: BinaryOperator, right: Box<Expression> },
    TernaryOp { condition: Box<Expression>, left: Box<Expression>, right: Box<Expression> },
}

/// The mathematical value of an expression tree: names as character sequences.
#[allow(inconsistent_fields)]
pub enum SpecExpression {
    Ident(Seq<char>),
    Number(u64),
    Call { function: Seq<char>, arguments: Seq<SpecExpression> },
    UnaryOp { operator: UnaryOperator, right: Box<SpecExpression> },
    BinaryOp { left: Box<SpecExpression>, operator: BinaryOperator, right: Box<SpecExpression> },
    TernaryOp {
        condition: Box<SpecExpression>,
        left: Box<SpecExpression>,
        right: Box<SpecExpression>,
    },
}

/// The mathematical value of an expression tree.
pub open spec fn expr_view(e: Expression) -> SpecExpression
    decreases e,
{
    match e {
        Expression::Ident(n) => SpecExpression::Ident(n@),
        Expression::Number(v) => SpecExpression::Number(v),
        Expression::Call { function, arguments } => SpecExpression::Call {
            function: function@,
            arguments: Seq::new(
                arguments@.len(),
                |i: int|
                    if 0 <= i < arguments@.len() {
                        expr_view(arguments@[i])
                    } else {
                        SpecExpression::Number(0)
                    },
            ),
        },
        Expression::UnaryOp { operator, right } => SpecExpression::UnaryOp {
            operator,
            right: Box::new(expr_view(*right)),
        },
        Expression::BinaryOp { left, operator, right } => SpecExpression::BinaryOp {
            left: Box::new(expr_view(*left)),
            operator,
            right: Box::new(expr_view(*right)),
        },
        Expression::TernaryOp { condition, left, right } => SpecExpression::TernaryOp {
            condition: Box::new(expr_view(*condition)),
            left: Box::new(expr_view(*left)),
            right: Box::new(expr_view(*right)),
        },
    }
}

impl DeepView for Expression {
    type V = SpecExpression;

    open spec fn deep_view(&self) -> SpecExpression {
        expr_view(*self)
    }
}


/// Whether `q` lies after `p` and within the text. Every rule that succeeds
/// moves forward (the executable rules prove it), so this holds wherever the
/// definitions test it; the test lets each recursive definition be seen to end.
pub open spec fn within(s: Seq<char>, p: int, q: int) -> bool {
    p < q <= s.len()
}

/// Position after the character `c` with the blanks and comments around it.
pub open spec fn ws_char(s: Seq<char>, p: int, c: char) -> Option<int> {
    let q = skip_ws(s, p);
    if char_is(s, q, c) {
        Some(skip_ws(s, q + 1))
    } else {
        None
    }
}

/// Whether the text at `p` starts with the characters `a` and `b`.
pub open spec fn pair_at(s: Seq<char>, p: int, a: char, b: char) -> bool {
    char_is(s, p, a) && char_is(s, p + 1, b)
}

/// The binary operator of precedence level `k` (2 binds tightest, 9 loosest)
/// written at `p`, and the position after it. Longer operators are tried
/// before their prefixes.
pub open spec fn level_operator(s: Seq<char>, p: int, k: nat) -> Option<(BinaryOperator, int)> {
    if k == 2 {
        if char_is(s, p, '*') {
            Some((BinaryOperator::Multiply, p + 1))
        } else if char_is(s, p, '/') {
            Some((BinaryOperator::Divide, p + 1))
        } else if char_is(s, p, '%') {
            Some((BinaryOperator::Remainder, p + 1))
        } else {
            None
        }
    } else if k == 3 {
        if char_is(s, p, '+') {
            Some((BinaryOperator::Plus, p + 1))
        } else if char_is(s, p, '-') {
            Some((BinaryOperator::Minus, p + 1))
        } else {
            None
        }
    } else if k == 4 {
        if pair_at(s, p, '<', '<') {
            Some((BinaryOperator::ShiftLeft, p + 2))
        } else if pair_at(s, p, '>', '>') {
            Some((BinaryOperator::ShiftRight, p + 2))
        } else {
            None
        }
    } else if k == 5 {
        if pair_at(s, p, '=', '=') {
            Some((BinaryOperator::Equals, p + 2))
        } else if pair_at(s, p, '!', '=') {
            Some((BinaryOperator::NotEquals, p + 2))
        } else if pair_at(s, p, '<', '=') {
            Some((BinaryOperator::LesserOrEquals, p + 2))
        } else if pair_at(s, p, '>', '=') {
            Some((BinaryOperator::GreaterOrEquals, p + 2))
        } else if char_is(s, p, '<') {
            Some((BinaryOperator::Lesser, p + 1))
        } else if char_is(s, p, '>') {
            Some((BinaryOperator::Greater, p + 1))
        } else {
            None
        }
    } else if k == 6 {
        if char_is(s, p, '&') {
            Some((BinaryOperator::BitwiseAnd, p + 1))
        } else {
            None
        }
    } else if k == 7 {
        if char_is(s, p, '|') {
            Some((BinaryOperator::BitwiseOr, p + 1))
        } else {
            None
        }
    } else if k == 8 {
        if pair_at(s, p, '&', '&') {
            Some((BinaryOperator::LogicAnd, p + 2))
        } else {
            None
        }
    } else if k == 9 {
        if pair_at(s, p, '|', '|') {
            Some((BinaryOperator::LogicOr, p + 2))
        } else {
            None
        }
    } else {
        None
    }
}

/// The unary operator written at `p`.
pub open spec fn unary_operator(s: Seq<char>, p: int) -> Option<UnaryOperator> {
    if char_is(s, p, '-') {
        Some(UnaryOperator::Minus)
    } else if char_is(s, p, '!') {
        Some(UnaryOperator::LogicNot)
    } else if char_is(s, p, '~') {
        Some(UnaryOperator::BitwiseNot)
    } else {
        None
    }
}

/// A full expression: a ternary expression, or else a level-9 expression.
pub open spec fn spec_expression(s: Seq<char>, p: int) -> SpecResult<SpecExpression>
    decreases s.len() - p, 12nat,
{
    match spec_ternary(s, p) {
        Err(ParseError::Mismatch) => spec_level(s, p, 9),
        r => r,
    }
}

/// `condition ? left : right`, the condition at level 9, each branch a full
/// expression.
pub open spec fn spec_ternary(s: Seq<char>, p: int) -> SpecResult<SpecExpression>
    decreases s.len() - p, 11nat,
{
    match spec_level(s, p, 9) {
        Err(e) => Err(e),
        Ok((c, q)) => match ws_char(s, q, '?') {
            None => Err(ParseError::Mismatch),
            Some(r) => if !within(s, p, r) {
                Err(ParseError::Fatal)
            } else {
                match spec_expression(s, r) {
                    Err(e) => Err(e),
                    Ok((l, t)) => match ws_char(s, t, ':') {
                        None => Err(ParseError::Mismatch),
                        Some(u) => if !within(s, p, u) {
                            Err(ParseError::Fatal)
                        } else {
                            match spec_expression(s, u) {
                                Err(e) => Err(e),
                                Ok((rr, v)) => Ok(
                                    (
                                        SpecExpression::TernaryOp {
                                            condition: Box::new(c),
                                            left: Box::new(l),
                                            right: Box::new(rr),
                                        },
                                        v,
                                    ),
                                ),
                            }
                        },
                    },
                }
            },
        },
    }
}

/// Level `k` of the ladder. Level 1 is a unary operator applied to a level-1
/// expression, or else a value; level `k` above 1 is a level `k - 1` operand
/// followed by any number of (operator of level `k`, operand) pairs, folded to
/// the left.
pub open spec fn spec_level(s: Seq<char>, p: int, k: nat) -> SpecResult<SpecExpression>
    decreases s.len() - p, k + 1,
{
    if k <= 1 {
        let unary = match unary_operator(s, p) {
            None => Err(ParseError::Mismatch),
            Some(op) => {
                let q = skip_ws(s, p + 1);
                if !within(s, p, q) {
                    Err(ParseError::Fatal)
                } else {
                    match spec_level(s, q, 1) {
                        Err(e) => Err(e),
                        Ok((e, r)) => Ok((SpecExpression::UnaryOp { operator: op, right: Box::new(e) }, r)),
                    }
                }
            },
        };
        match unary {
            Err(ParseError::Mismatch) => spec_value(s, p),
            r => r,
        }
    } else {
        match spec_level(s, p, (k - 1) as nat) {
            Err(e) => Err(e),
            Ok((e, q)) => if !within(s, p, q) {
                Err(ParseError::Fatal)
            } else {
                spec_fold(s, q, k, e)
            },
        }
    }
}

/// The (operator, operand) pairs of level `k` that follow `acc` at `p`.
pub open spec fn spec_fold(s: Seq<char>, p: int, k: nat, acc: SpecExpression) -> SpecResult<
    SpecExpression,
>
    decreases s.len() - p, 0nat,
{
    match level_operator(s, skip_ws(s, p), k) {
        None => Ok((acc, p)),
        Some((op, r)) => {
            let t = skip_ws(s, r);
            if !within(s, p, t) || k < 2 {
                Err(ParseError::Fatal)
            } else {
                match spec_level(s, t, (k - 1) as nat) {
                    Err(ParseError::Mismatch) => Ok((acc, p)),
                    Err(e) => Err(e),
                    Ok((rhs, u)) => if !within(s, t, u) {
                        Err(ParseError::Fatal)
                    } else {
                        spec_fold(
                            s,
                            u,
                            k,
                            SpecExpression::BinaryOp {
                                left: Box::new(acc),
                                operator: op,
                                right: Box::new(rhs),
                            },
                        )
                    },
                }
            }
        },
    }
}

/// A primary expression, the forms tried in order: a parenthesized
/// expression, a call, a numeric literal, a name.
pub open spec fn spec_value(s: Seq<char>, p: int) -> SpecResult<SpecExpression>
    decreases s.len() - p, 0nat,
{
    let nested = if !char_is(s, p, '(') {
        Err(ParseError::Mismatch)
    } else {
        let q = skip_ws(s, p + 1);
        if !within(s, p, q) {
            Err(ParseError::Fatal)
        } else {
            match spec_expression(s, q) {
                Err(e) => Err(e),
                Ok((e, r)) => {
                    let t = skip_ws(s, r);
                    if char_is(s, t, ')') {
                        Ok((e, t + 1))
                    } else {
                        Err(ParseError::Mismatch)
                    }
                },
            }
        }
    };
    let call = match spec_symbol(s, p) {
        Err(e) => Err(e),
        Ok((f, q)) => match ws_char(s, q, '(') {
            None => Err(ParseError::Mismatch),
            Some(r) => if !within(s, p, r) {
                Err(ParseError::Fatal)
            } else {
                match spec_arguments(s, r) {
                    Err(e) => Err(e),
                    Ok((args, t)) => {
                        let u = skip_ws(s, t);
                        if char_is(s, u, ')') {
                            Ok((SpecExpression::Call { function: f, arguments: args }, u + 1))
                        } else {
                            Err(ParseError::Mismatch)
                        }
                    },
                }
            },
        },
    };
    match nested {
        Err(ParseError::Mismatch) => match call {
            Err(ParseError::Mismatch) => match spec_number(s, p) {
                Err(ParseError::Mismatch) => match spec_symbol(s, p) {
                    Err(e) => Err(e),
                    Ok((n, q)) => Ok((SpecExpression::Ident(n), q)),
                },
                Err(e) => Err(e),
                Ok((v, q)) => Ok((SpecExpression::Number(v), q)),
            },
            r => r,
        },
        r => r,
    }
}

/// Zero or more expressions separated by commas (no trailing comma).
pub open spec fn spec_arguments(s: Seq<char>, p: int) -> SpecResult<Seq<SpecExpression>>
    decreases s.len() - p, 13nat,
{
    match spec_expression(s, p) {
        Err(ParseError::Mismatch) => Ok((Seq::empty(), p)),
        Err(e) => Err(e),
        Ok((e, q)) => if !within(s, p, q) {
            Err(ParseError::Fatal)
        } else {
            spec_more_arguments(s, q, seq![e])
        },
    }
}

/// The `, expression` pairs that follow the arguments `acc` at `p`.
pub open spec fn spec_more_arguments(
    s: Seq<char>,
    p: int,
    acc: Seq<SpecExpression>,
) -> SpecResult<Seq<SpecExpression>>
    decreases s.len() - p, 0nat,
{
    match ws_char(s, p, ',') {
        None => Ok((acc, p)),
        Some(q) => if !within(s, p, q) {
            Err(ParseError::Fatal)
        } else {
            match spec_expression(s, q) {
                Err(ParseError::Mismatch) => Ok((acc, p)),
                Err(e) => Err(e),
                Ok((e, r)) => if !within(s, q, r) {
                    Err(ParseError::Fatal)
                } else {
                    spec_more_arguments(s, r, acc.push(e))
                },
            }
        },
    }
}


pub(crate) fn ws_char_at(src: &Source, p: usize, c: char) -> (r: Option<usize>)
    requires
        src.wf(),
        p <= src@.len(),
    ensures
        r matches Some(q) ==> ws_char(src@, p as int, c) == Some(q as int) && p < q <= src@.len(),
        r is None ==> ws_char(src@, p as int, c) is None,
{
    let q = skip(src, p);
    if src.is(q, c) {
        Some(skip(src, q + 1))
    } else {
        None
    }
}

fn pair(src: &Source, p: usize, a: char, b: char) -> (r: bool)
    requires
        src.wf(),
        p <= src@.len(),
    ensures
        r == pair_at(src@, p as int, a, b),
        r ==> p + 2 <= src@.len() <= usize::MAX,
{
    src.is(p, a) && src.is(p + 1, b)
}

fn level_operator_at(src: &Source, p: usize, k: u8) -> (r: Option<(BinaryOperator, usize)>)
    requires
        src.wf(),
        p <= src@.len(),
    ensures
        match r {
            Some((op, q)) => level_operator(src@, p as int, k as nat) == Some((op, q as int)) && p
                < q <= src@.len(),
            None => level_operator(src@, p as int, k as nat) is None,
        },
{
    if k == 2 {
        if src.is(p, '*') {
            Some((BinaryOperator::Multiply, p + 1))
        } else if src.is(p, '/') {
            Some((BinaryOperator::Divide, p + 1))
        } else if src.is(p, '%') {
            Some((BinaryOperator::Remainder, p + 1))
        } else {
            None
        }
    } else if k == 3 {
        if src.is(p, '+') {
            Some((BinaryOperator::Plus, p + 1))
        } else if src.is(p, '-') {
            Some((BinaryOperator::Minus, p + 1))
        } else {
            None
        }
    } else if k == 4 {
        if pair(src, p, '<', '<') {
            Some((BinaryOperator::ShiftLeft, p + 2))
        } else if pair(src, p, '>', '>') {
            Some((BinaryOperator::ShiftRight, p + 2))
        } else {
            None
        }
    } else if k == 5 {
        if pair(src, p, '=', '=') {
            Some((BinaryOperator::Equals, p + 2))
        } else if pair(src, p, '!', '=') {
            Some((BinaryOperator::NotEquals, p + 2))
        } else if pair(src, p, '<', '=') {
            Some((BinaryOperator::LesserOrEquals, p + 2))
        } else if pair(src, p, '>', '=') {
            Some((BinaryOperator::GreaterOrEquals, p + 2))
        } else if src.is(p, '<') {
            Some((BinaryOperator::Lesser, p + 1))
        } else if src.is(p, '>') {
            Some((BinaryOperator::Greater, p + 1))
        } else {
            None
        }
    } else if k == 6 {
        if src.is(p, '&') {
            Some((BinaryOperator::BitwiseAnd, p + 1))
        } else {
            None
        }
    } else if k == 7 {
        if src.is(p, '|') {
            Some((BinaryOperator::BitwiseOr, p + 1))
        } else {
            None
        }
    } else if k == 8 {
        if pair(src, p, '&', '&') {
            Some((BinaryOperator::LogicAnd, p + 2))
        } else {
            None
        }
    } else if k == 9 {
        if pair(src, p, '|', '|') {
            Some((BinaryOperator::LogicOr, p + 2))
        } else {
            None
        }
    } else {
        None
    }
}

fn unary_operator_at(src: &Source, p: usize) -> (r: Option<UnaryOperator>)
    requires
        src.wf(),
    ensures
        r == unary_operator(src@, p as int),
        r is Some ==> p < src@.len() <= usize::MAX,
{
    if src.is(p, '-') {
        Some(UnaryOperator::Minus)
    } else if src.is(p, '!') {
        Some(UnaryOperator::LogicNot)
    } else if src.is(p, '~') {
        Some(UnaryOperator::BitwiseNot)
    } else {
        None
    }
}

pub(crate) fn expression_at(src: &Source, p: usize) -> (r: Result<(Expression, usize), ParseError>)
    requires
        src.wf(),
        p <= src@.len(),
    ensures
        agrees(r, spec_expression(src@, p as int)),
        advances(r, p as int, src@.len() as int),
    decreases src@.len() - p, 12nat,
{
    proof {
        reveal_with_fuel(spec_expression, 2);
    }
    let (c, q) = match level_at(src, p, 9) {
        Ok(x) => x,
        Err(e) => {
            return Err(e);
        },
    };
    let r = match ws_char_at(src, q, '?') {
        Some(r) => r,
        None => {
            return Ok((c, q));
        },
    };
    let (l, t) = match expression_at(src, r) {
        Ok(x) => x,
        Err(ParseError::Mismatch) => {
            return Ok((c, q));
        },
        Err(e) => {
            return Err(e);
        },
    };
    let u = match ws_char_at(src, t, ':') {
        Some(u) => u,
        None => {
            return Ok((c, q));
        },
    };
    match expression_at(src, u) {
        Ok((rr, v)) => Ok(
            (
                Expression::TernaryOp { condition: Box::new(c), left: Box::new(l), right: Box::new(rr) },
                v,
            ),
        ),
        Err(ParseError::Mismatch) => Ok((c, q)),
        Err(e) => Err(e),
    }
}

pub(crate) fn level_at(src: &Source, p: usize, k: u8) -> (r: Result<(Expression, usize), ParseError>)
    requires
        src.wf(),
        p <= src@.len(),
        1 <= k <= 9,
    ensures
        agrees(r, spec_level(src@, p as int, k as nat)),
        advances(r, p as int, src@.len() as int),
    decreases src@.len() - p, k + 1,
{
    if k <= 1 {
        match unary_operator_at(src, p) {
            Some(op) => {
                let q = skip(src, p + 1);
                match level_at(src, q, 1) {
                    Ok((e, r)) => {
                        return Ok((Expression::UnaryOp { operator: op, right: Box::new(e) }, r));
                    },
                    Err(ParseError::Fatal) => {
                        return Err(ParseError::Fatal);
                    },
                    Err(ParseError::Mismatch) => {},
                }
            },
            None => {},
        }
        return value_at(src, p);
    }
    let (first, q) = match level_at(src, p, k - 1) {
        Ok(x) => x,
        Err(e) => {
            return Err(e);
        },
    };
    let ghost s = src@;
    let ghost g = spec_fold(s, q as int, k as nat, first.deep_view());
    assert(spec_level(s, p as int, k as nat) == g);
    let mut acc = first;
    let mut pos = q;
    loop
        invariant
            src.wf(),
            s == src@,
            2 <= k <= 9,
            p < pos <= s.len(),
            spec_level(s, p as int, k as nat) == g,
            spec_fold(s, pos as int, k as nat, acc.deep_view()) == g,
        decreases s.len() - pos,
    {
        let w = skip(src, pos);
        let (op, r) = match level_operator_at(src, w, k) {
            Some(x) => x,
            None => {
                return Ok((acc, pos));
            },
        };
        let t = skip(src, r);
        match level_at(src, t, k - 1) {
            Ok((rhs, u)) => {
                acc = Expression::BinaryOp { left: Box::new(acc), operator: op, right: Box::new(rhs) };
                pos = u;
            },
            Err(ParseError::Mismatch) => {
                return Ok((acc, pos));
            },
            Err(e) => {
                return Err(e);
            },
        }
    }
}

pub(crate) fn value_at(src: &Source, p: usize) -> (r: Result<(Expression, usize), ParseError>)
    requires
        src.wf(),
        p <= src@.len(),
    ensures
        agrees(r, spec_value(src@, p as int)),
        advances(r, p as int, src@.len() as int),
    decreases src@.len() - p, 0nat,
{
    if src.is(p, '(') {
        let q = skip(src, p + 1);
        match expression_at(src, q) {
            Ok((e, r)) => {
                let t = skip(src, r);
                if src.is(t, ')') {
                    return Ok((e, t + 1));
                }
            },
            Err(ParseError::Mismatch) => {},
            Err(e) => {
                return Err(e);
            },
        }
    }
    match symbol_span(src, p) {
        Ok(((a, b), q)) => match ws_char_at(src, q, '(') {
            Some(r) => match arguments_at(src, r) {
                Ok((args, t)) => {
                    let u = skip(src, t);
                    if src.is(u, ')') {
                        let ghost dv = args.deep_view();
                        let call = Expression::Call { function: src.slice(a, b), arguments: args };
                        proof {
                            if let SpecExpression::Call { function: _, arguments: av } = call.deep_view() {
                                assert(av =~= dv);
                            }
                        }
                        return Ok((call, u + 1));
                    }
                },
                Err(ParseError::Mismatch) => {},
                Err(e) => {
                    return Err(e);
                },
            },
            None => {},
        },
        Err(ParseError::Mismatch) => {},
        Err(e) => {
            return Err(e);
        },
    }
    match number_at(src, p) {
        Ok((v, q)) => {
            return Ok((Expression::Number(v), q));
        },
        Err(ParseError::Mismatch) => {},
        Err(e) => {
            return Err(e);
        },
    }
    match symbol_span(src, p) {
        Ok(((a, b), q)) => Ok((Expression::Ident(src.slice(a, b)), q)),
        Err(e) => Err(e),
    }
}

pub(crate) fn arguments_at(src: &Source, p: usize) -> (r: Result<(Vec<Expression>, usize), ParseError>)
    requires
        src.wf(),
        p <= src@.len(),
    ensures
        agrees(r, spec_arguments(src@, p as int)),
        r matches Ok((_, q)) ==> p <= q <= src@.len(),
    decreases src@.len() - p, 13nat,
{
    let (e, q) = match expression_at(src, p) {
        Ok(x) => x,
        Err(ParseError::Mismatch) => {
            let v: Vec<Expression> = Vec::new();
            assert(v.deep_view() =~= Seq::<SpecExpression>::empty());
            return Ok((v, p));
        },
        Err(e) => {
            return Err(e);
        },
    };
    let ghost s = src@;
    let ghost g = spec_more_arguments(s, q as int, seq![e.deep_view()]);
    let mut v: Vec<Expression> = Vec::new();
    v.push(e);
    assert(v.deep_view() =~= seq![e.deep_view()]);
    let mut pos = q;
    loop
        invariant
            src.wf(),
            s == src@,
            p < pos <= s.len(),
            spec_arguments(s, p as int) == g,
            spec_more_arguments(s, pos as int, v.deep_view()) == g,
        decreases s.len() - pos,
    {
        let t = match ws_char_at(src, pos, ',') {
            Some(t) => t,
            None => {
                return Ok((v, pos));
            },
        };
        match expression_at(src, t) {
            Ok((e2, u)) => {
                let ghost before = v.deep_view();
                v.push(e2);
                assert(v.deep_view() =~= before.push(e2.deep_view()));
                pos = u;
            },
            Err(ParseError::Mismatch) => {
                return Ok((v, pos));
            },
            Err(e) => {
                return Err(e);
            },
        }
    }
}

/// Parses an expression at the start of `input`.
pub fn expression(input: &str) -> (r: Result<(&str, Expression), ParseError>)
    ensures
        outcome(r, input@, spec_expression(input@, 0)),
{
    let src = Source::new(input);
    let r = expression_at(&src, 0);
    finish(&src, r)
}

/// Parses a primary expression at the start of `input`.
pub fn value(input: &str) -> (r: Result<(&str, Expression), ParseError>)
    ensures
        outcome(r, input@, spec_value(input@, 0)),
{
    let src = Source::new(input);
    let r = value_at(&src, 0);
    finish(&src, r)
}

} // verus!
