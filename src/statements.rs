//! Symbol assignments and assertions.
use vstd::prelude::*;

use crate::expressions::{expr_view, expression_at, spec_expression, ws_char, ws_char_at, Expression, SpecExpression};
use crate::idents::{spec_string, spec_symbol, string_span, symbol_span};
use crate::text::{advances, agrees, char_is, finish, outcome, spec_tag, ParseError, Source, SpecResult};
use crate::whitespace::{skip, skip_ws};

verus! {

/// `=` and the compound assignments `+= -= *= /= <<= >>= &= |=`.
#[derive(Debug, PartialEq, Eq, Clone, Copy)]
pub enum AssignOperator {
    Equals,
    Plus,
    Minus,
    Multiply,
    Divide,
    ShiftLeft,
    ShiftRight,
    And,
    Or,
}

/// A symbol assignment or an assertion.
#[derive(Debug, PartialEq)]
pub enum Statement {
    Assign { name: String, operator: AssignOperator, expression: Box<Expression> },
    Hidden { name: String, expression: Box<Expression> },
    Provide { name: String, expression: Box<Expression> },
    ProvideHidden { name: String, expression: Box<Expression> },
    Assert { expr: Box<Expression>, text: String },
}

/// The mathematical value of a statement.
pub enum SpecStatement {
    Assign { name: Seq<char>, operator: AssignOperator, expression: SpecExpression },
    Hidden { name: Seq<char>, expression: SpecExpression },
    Provide { name: Seq<char>, expression: SpecExpression },
    ProvideHidden { name: Seq<char>, expression: SpecExpression },
    Assert { expr: SpecExpression, text: Seq<char> },
}

pub open spec fn statement_view(st: Statement) -> SpecStatement {
    match st {
        Statement::Assign { name, operator, expression } => SpecStatement::Assign {
            name: name@,
            operator,
            expression: expr_view(*expression),
        },
        Statement::Hidden { name, expression } => SpecStatement::Hidden {
            name: name@,
            expression: expr_view(*expression),
        },
        Statement::Provide { name, expression } => SpecStatement::Provide {
            name: name@,
            expression: expr_view(*expression),
        },
        Statement::ProvideHidden { name, expression } => SpecStatement::ProvideHidden {
            name: name@,
            expression: expr_view(*expression),
        },
        Statement::Assert { expr, text } => SpecStatement::Assert {
            expr: expr_view(*expr),
            text: text@,
        },
    }
}

impl DeepView for Statement {
    type V = SpecStatement;

    open spec fn deep_view(&self) -> SpecStatement {
        statement_view(*self)
    }
}

/// The assignment operator written at `p` and the position after it.
pub open spec fn spec_assign_operator(s: Seq<char>, p: int) -> Option<(AssignOperator, int)> {
    if char_is(s, p, '=') {
        Some((AssignOperator::Equals, p + 1))
    } else if char_is(s, p + 1, '=') && (char_is(s, p, '+') || char_is(s, p, '-') || char_is(
        s,
        p,
        '*',
    ) || char_is(s, p, '/') || char_is(s, p, '&') || char_is(s, p, '|')) {
        let op = if s[p] == '+' {
            AssignOperator::Plus
        } else if s[p] == '-' {
            AssignOperator::Minus
        } else if s[p] == '*' {
            AssignOperator::Multiply
        } else if s[p] == '/' {
            AssignOperator::Divide
        } else if s[p] == '&' {
            AssignOperator::And
        } else {
            AssignOperator::Or
        };
        Some((op, p + 2))
    } else if char_is(s, p + 2, '=') && char_is(s, p, '<') && char_is(s, p + 1, '<') {
        Some((AssignOperator::ShiftLeft, p + 3))
    } else if char_is(s, p + 2, '=') && char_is(s, p, '>') && char_is(s, p + 1, '>') {
        Some((AssignOperator::ShiftRight, p + 3))
    } else {
        None
    }
}

/// Which of `PROVIDE_HIDDEN`, `PROVIDE` and `HIDDEN` (tried in that order)
/// starts at `p`, as 2, 1 and 0, and the position after it.
pub open spec fn special_keyword(s: Seq<char>, p: int) -> Option<(int, int)> {
    match spec_tag(s, p, "PROVIDE_HIDDEN"@) {
        Some(q) => Some((2, q)),
        None => match spec_tag(s, p, "PROVIDE"@) {
            Some(q) => Some((1, q)),
            None => match spec_tag(s, p, "HIDDEN"@) {
                Some(q) => Some((0, q)),
                None => None,
            },
        },
    }
}

/// `PROVIDE_HIDDEN ( name = expression ) ;`, and likewise `PROVIDE` and `HIDDEN`.
pub open spec fn spec_special_assign(s: Seq<char>, p: int) -> SpecResult<SpecStatement> {
    match special_keyword(s, p) {
        None => Err(ParseError::Mismatch),
        Some((kind, q)) => match ws_char(s, q, '(') {
            None => Err(ParseError::Mismatch),
            Some(r) => match spec_symbol(s, r) {
                Err(e) => Err(e),
                Ok((name, t)) => match ws_char(s, t, '=') {
                    None => Err(ParseError::Mismatch),
                    Some(u) => match spec_expression(s, u) {
                        Err(e) => Err(e),
                        Ok((e, v)) => match ws_char(s, v, ')') {
                            None => Err(ParseError::Mismatch),
                            Some(w) => if char_is(s, w, ';') {
                                Ok(
                                    (
                                        if kind == 2 {
                                            SpecStatement::ProvideHidden { name, expression: e }
                                        } else if kind == 1 {
                                            SpecStatement::Provide { name, expression: e }
                                        } else {
                                            SpecStatement::Hidden { name, expression: e }
                                        },
                                        w + 1,
                                    ),
                                )
                            } else {
                                Err(ParseError::Mismatch)
                            },
                        },
                    },
                },
            },
        },
    }
}

/// `name operator expression ;`
pub open spec fn spec_assign(s: Seq<char>, p: int) -> SpecResult<SpecStatement> {
    match spec_symbol(s, p) {
        Err(e) => Err(e),
        Ok((name, q)) => match spec_assign_operator(s, skip_ws(s, q)) {
            None => Err(ParseError::Mismatch),
            Some((op, r)) => match spec_expression(s, skip_ws(s, r)) {
                Err(e) => Err(e),
                Ok((e, t)) => {
                    let u = skip_ws(s, t);
                    if char_is(s, u, ';') {
                        Ok((SpecStatement::Assign { name, operator: op, expression: e }, u + 1))
                    } else {
                        Err(ParseError::Mismatch)
                    }
                },
            },
        },
    }
}

/// `ASSERT ( expression , "message" )`, with an optional `;`.
pub open spec fn spec_assert(s: Seq<char>, p: int) -> SpecResult<SpecStatement> {
    match spec_tag(s, p, "ASSERT"@) {
        None => Err(ParseError::Mismatch),
        Some(q) => match ws_char(s, q, '(') {
            None => Err(ParseError::Mismatch),
            Some(r) => match spec_expression(s, r) {
                Err(e) => Err(e),
                Ok((e, t)) => match ws_char(s, t, ',') {
                    None => Err(ParseError::Mismatch),
                    Some(u) => match spec_string(s, u) {
                        Err(x) => Err(x),
                        Ok((text, v)) => match ws_char(s, v, ')') {
                            None => Err(ParseError::Mismatch),
                            Some(w) => Ok(
                                (
                                    SpecStatement::Assert { expr: e, text },
                                    if char_is(s, w, ';') {
                                        w + 1
                                    } else {
                                        w
                                    },
                                ),
                            ),
                        },
                    },
                },
            },
        },
    }
}

/// A statement: the keyword assignments, then a plain assignment, then an assertion.
pub open spec fn spec_statement(s: Seq<char>, p: int) -> SpecResult<SpecStatement> {
    match spec_special_assign(s, p) {
        Err(ParseError::Mismatch) => match spec_assign(s, p) {
            Err(ParseError::Mismatch) => spec_assert(s, p),
            r => r,
        },
        r => r,
    }
}

fn assign_operator_at(src: &Source, p: usize) -> (r: Option<(AssignOperator, usize)>)
    requires
        src.wf(),
        p <= src@.len(),
    ensures
        match r {
            Some((op, q)) => spec_assign_operator(src@, p as int) == Some((op, q as int)) && p < q
                <= src@.len(),
            None => spec_assign_operator(src@, p as int) is None,
        },
{
    if src.is(p, '=') {
        return Some((AssignOperator::Equals, p + 1));
    }
    if p < src.len() && src.is(p + 1, '=') {
        let c = src.at(p);
        if c == '+' {
            return Some((AssignOperator::Plus, p + 2));
        } else if c == '-' {
            return Some((AssignOperator::Minus, p + 2));
        } else if c == '*' {
            return Some((AssignOperator::Multiply, p + 2));
        } else if c == '/' {
            return Some((AssignOperator::Divide, p + 2));
        } else if c == '&' {
            return Some((AssignOperator::And, p + 2));
        } else if c == '|' {
            return Some((AssignOperator::Or, p + 2));
        }
    }
    if p < src.len() && p + 1 < src.len() && src.is(p + 2, '=') && src.is(p, '<') && src.is(p + 1, '<') {
        return Some((AssignOperator::ShiftLeft, p + 3));
    }
    if p < src.len() && p + 1 < src.len() && src.is(p + 2, '=') && src.is(p, '>') && src.is(p + 1, '>') {
        return Some((AssignOperator::ShiftRight, p + 3));
    }
    None
}

fn special_assign(src: &Source, p: usize) -> (r: Result<(Statement, usize), ParseError>)
    requires
        src.wf(),
        p <= src@.len(),
    ensures
        agrees(r, spec_special_assign(src@, p as int)),
        advances(r, p as int, src@.len() as int),
{
    let (kind, q): (u8, usize) = match src.tag(p, "PROVIDE_HIDDEN") {
        Some(q) => (2, q),
        None => match src.tag(p, "PROVIDE") {
            Some(q) => (1, q),
            None => match src.tag(p, "HIDDEN") {
                Some(q) => (0, q),
                None => {
                    return Err(ParseError::Mismatch);
                },
            },
        },
    };
    let r = match ws_char_at(src, q, '(') {
        Some(r) => r,
        None => {
            return Err(ParseError::Mismatch);
        },
    };
    let ((a, b), t) = match symbol_span(src, r) {
        Ok(x) => x,
        Err(e) => {
            return Err(e);
        },
    };
    let u = match ws_char_at(src, t, '=') {
        Some(u) => u,
        None => {
            return Err(ParseError::Mismatch);
        },
    };
    let (e, v) = match expression_at(src, u) {
        Ok(x) => x,
        Err(e) => {
            return Err(e);
        },
    };
    let w = match ws_char_at(src, v, ')') {
        Some(w) => w,
        None => {
            return Err(ParseError::Mismatch);
        },
    };
    if !src.is(w, ';') {
        return Err(ParseError::Mismatch);
    }
    let name = src.slice(a, b);
    let st = if kind == 2 {
        Statement::ProvideHidden { name, expression: Box::new(e) }
    } else if kind == 1 {
        Statement::Provide { name, expression: Box::new(e) }
    } else {
        Statement::Hidden { name, expression: Box::new(e) }
    };
    Ok((st, w + 1))
}

fn assign(src: &Source, p: usize) -> (r: Result<(Statement, usize), ParseError>)
    requires
        src.wf(),
        p <= src@.len(),
    ensures
        agrees(r, spec_assign(src@, p as int)),
        advances(r, p as int, src@.len() as int),
{
    let ((a, b), q) = match symbol_span(src, p) {
        Ok(x) => x,
        Err(e) => {
            return Err(e);
        },
    };
    let q1 = skip(src, q);
    let (op, r) = match assign_operator_at(src, q1) {
        Some(x) => x,
        None => {
            return Err(ParseError::Mismatch);
        },
    };
    let r1 = skip(src, r);
    let (e, t) = match expression_at(src, r1) {
        Ok(x) => x,
        Err(e) => {
            return Err(e);
        },
    };
    let u = skip(src, t);
    if !src.is(u, ';') {
        return Err(ParseError::Mismatch);
    }
    Ok((Statement::Assign { name: src.slice(a, b), operator: op, expression: Box::new(e) }, u + 1))
}

fn assert_stmt(src: &Source, p: usize) -> (r: Result<(Statement, usize), ParseError>)
    requires
        src.wf(),
        p <= src@.len(),
    ensures
        agrees(r, spec_assert(src@, p as int)),
        advances(r, p as int, src@.len() as int),
{
    let q = match src.tag(p, "ASSERT") {
        Some(q) => q,
        None => {
            return Err(ParseError::Mismatch);
        },
    };
    let r = match ws_char_at(src, q, '(') {
        Some(r) => r,
        None => {
            return Err(ParseError::Mismatch);
        },
    };
    let (e, t) = match expression_at(src, r) {
        Ok(x) => x,
        Err(e) => {
            return Err(e);
        },
    };
    let u = match ws_char_at(src, t, ',') {
        Some(u) => u,
        None => {
            return Err(ParseError::Mismatch);
        },
    };
    let ((a, b), v) = match string_span(src, u) {
        Ok(x) => x,
        Err(e) => {
            return Err(e);
        },
    };
    let w = match ws_char_at(src, v, ')') {
        Some(w) => w,
        None => {
            return Err(ParseError::Mismatch);
        },
    };
    let end = if src.is(w, ';') {
        w + 1
    } else {
        w
    };
    Ok((Statement::Assert { expr: Box::new(e), text: src.slice(a, b) }, end))
}

pub(crate) fn statement_at(src: &Source, p: usize) -> (r: Result<(Statement, usize), ParseError>)
    requires
        src.wf(),
        p <= src@.len(),
    ensures
        agrees(r, spec_statement(src@, p as int)),
        advances(r, p as int, src@.len() as int),
{
    match special_assign(src, p) {
        Err(ParseError::Mismatch) => match assign(src, p) {
            Err(ParseError::Mismatch) => assert_stmt(src, p),
            r => r,
        },
        r => r,
    }
}

/// Parses a statement at the start of `input`.
pub fn statement(input: &str) -> (r: Result<(&str, Statement), ParseError>)
    ensures
        outcome(r, input@, spec_statement(input@, 0)),
{
    let src = Source::new(input);
    let r = statement_at(&src, 0);
    finish(&src, r)
}

} // verus!
