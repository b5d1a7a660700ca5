//! Top-level directives: `INCLUDE`, `INSERT` and generic `NAME(arguments)` calls.
use vstd::prelude::*;

use crate::expressions::{expression_at, spec_expression, ws_char, ws_char_at, Expression, SpecExpression};
use crate::idents::{pattern_span, spec_pattern, spec_symbol, symbol_span};
use crate::text::{advances, agrees, char_is, finish, outcome, spec_tag, ParseError, Source, SpecResult};
use crate::whitespace::{skip, skip_ws};

verus! {

/// Where `INSERT` places the script's sections.
#[derive(Debug, PartialEq, Eq, Clone, Copy)]
pub enum InsertOrder {
    Before,
    After,
}

/// A top-level directive.
#[derive(Debug, PartialEq)]
pub enum Command {
    Call { name: String, arguments: Vec<Expression> },
    Include { file: String },
    Insert { order: InsertOrder, section: String },
}

/// The mathematical value of a command.
pub enum SpecCommand {
    Call { name: Seq<char>, arguments: Seq<SpecExpression> },
    Include { file: Seq<char> },
    Insert { order: InsertOrder, section: Seq<char> },
}

impl DeepView for Command {
    type V = SpecCommand;

    open spec fn deep_view(&self) -> SpecCommand {
        match self {
            Command::Call { name, arguments } => SpecCommand::Call {
                name: name@,
                arguments: arguments.deep_view(),
            },
            Command::Include { file } => SpecCommand::Include { file: file@ },
            Command::Insert { order, section } => SpecCommand::Insert {
                order: *order,
                section: section@,
            },
        }
    }
}

/// What separates two arguments of a command: blanks and comments, or else a
/// comma with the blanks and comments around it.
pub open spec fn argument_separator(s: Seq<char>, p: int) -> Option<int> {
    if skip_ws(s, p) > p {
        Some(skip_ws(s, p))
    } else {
        ws_char(s, p, ',')
    }
}

/// The separated arguments that follow the arguments `acc` at `p`.
pub open spec fn spec_more_command_arguments(
    s: Seq<char>,
    p: int,
    acc: Seq<SpecExpression>,
) -> SpecResult<Seq<SpecExpression>>
    decreases s.len() - p,
{
    match argument_separator(s, p) {
        None => Ok((acc, p)),
        Some(q) => if !(p < q <= s.len()) {
            Err(ParseError::Fatal)
        } else {
            match spec_expression(s, q) {
                Err(ParseError::Mismatch) => Ok((acc, p)),
                Err(e) => Err(e),
                Ok((e, r)) => if !(q < r <= s.len()) {
                    Err(ParseError::Fatal)
                } else {
                    spec_more_command_arguments(s, r, acc.push(e))
                },
            }
        },
    }
}

/// One or more expressions, separated by blanks or by commas.
pub open spec fn spec_command_arguments(s: Seq<char>, p: int) -> SpecResult<Seq<SpecExpression>> {
    match spec_expression(s, p) {
        Err(e) => Err(e),
        Ok((e, q)) => spec_more_command_arguments(s, q, seq![e]),
    }
}

/// `NAME ( arguments )`, with an optional `;`.
pub open spec fn spec_call(s: Seq<char>, p: int) -> SpecResult<SpecCommand> {
    match spec_symbol(s, p) {
        Err(e) => Err(e),
        Ok((name, q)) => match ws_char(s, q, '(') {
            None => Err(ParseError::Mismatch),
            Some(r) => match spec_command_arguments(s, r) {
                Err(e) => Err(e),
                Ok((args, t)) => match ws_char(s, t, ')') {
                    None => Err(ParseError::Mismatch),
                    Some(u) => Ok(
                        (
                            SpecCommand::Call { name, arguments: args },
                            if char_is(s, u, ';') {
                                u + 1
                            } else {
                                u
                            },
                        ),
                    ),
                },
            },
        },
    }
}

/// `INCLUDE file`, with an optional `;`.
pub open spec fn spec_include(s: Seq<char>, p: int) -> SpecResult<SpecCommand> {
    match spec_tag(s, p, "INCLUDE"@) {
        None => Err(ParseError::Mismatch),
        Some(q) => if skip_ws(s, q) <= q {
            Err(ParseError::Mismatch)
        } else {
            match spec_pattern(s, skip_ws(s, q)) {
                Err(e) => Err(e),
                Ok((file, t)) => {
                    let u = skip_ws(s, t);
                    Ok(
                        (
                            SpecCommand::Include { file },
                            if char_is(s, u, ';') {
                                u + 1
                            } else {
                                u
                            },
                        ),
                    )
                },
            }
        },
    }
}

/// `BEFORE` or `AFTER`.
pub open spec fn insert_order(s: Seq<char>, p: int) -> Option<(InsertOrder, int)> {
    match spec_tag(s, p, "BEFORE"@) {
        Some(q) => Some((InsertOrder::Before, q)),
        None => match spec_tag(s, p, "AFTER"@) {
            Some(q) => Some((InsertOrder::After, q)),
            None => None,
        },
    }
}

/// `INSERT BEFORE section` or `INSERT AFTER section`, with an optional `;`.
pub open spec fn spec_insert(s: Seq<char>, p: int) -> SpecResult<SpecCommand> {
    match spec_tag(s, p, "INSERT"@) {
        None => Err(ParseError::Mismatch),
        Some(q) => match insert_order(s, skip_ws(s, q)) {
            None => Err(ParseError::Mismatch),
            Some((order, r)) => match spec_symbol(s, skip_ws(s, r)) {
                Err(e) => Err(e),
                Ok((section, t)) => {
                    let u = skip_ws(s, t);
                    Ok(
                        (
                            SpecCommand::Insert { order, section },
                            if char_is(s, u, ';') {
                                u + 1
                            } else {
                                u
                            },
                        ),
                    )
                },
            },
        },
    }
}

/// A command: `INCLUDE`, then a call, then `INSERT`.
pub open spec fn spec_command(s: Seq<char>, p: int) -> SpecResult<SpecCommand> {
    match spec_include(s, p) {
        Err(ParseError::Mismatch) => match spec_call(s, p) {
            Err(ParseError::Mismatch) => spec_insert(s, p),
            r => r,
        },
        r => r,
    }
}

fn command_arguments(src: &Source, p: usize) -> (r: Result<(Vec<Expression>, usize), ParseError>)
    requires
        src.wf(),
        p <= src@.len(),
    ensures
        agrees(r, spec_command_arguments(src@, p as int)),
        advances(r, p as int, src@.len() as int),
{
    let (e, q) = match expression_at(src, p) {
        Ok(x) => x,
        Err(e) => {
            return Err(e);
        },
    };
    let ghost s = src@;
    let ghost g = spec_more_command_arguments(s, q as int, seq![e.deep_view()]);
    let mut v: Vec<Expression> = Vec::new();
    v.push(e);
    assert(v.deep_view() =~= seq![e.deep_view()]);
    let mut pos = q;
    loop
        invariant
            src.wf(),
            s == src@,
            p < pos <= s.len(),
            spec_command_arguments(s, p as int) == g,
            spec_more_command_arguments(s, pos as int, v.deep_view()) == g,
        decreases s.len() - pos,
    {
        let w = skip(src, pos);
        let t = if w > pos {
            w
        } else {
            match ws_char_at(src, pos, ',') {
                Some(t) => t,
                None => {
                    return Ok((v, pos));
                },
            }
        };
        match expression_at(src, t) {
            Ok((e2, u)) => {
                let ghost before = v.deep_view();
                v.push(e2);
                assert(v.deep_view() =~= before.push(e2.deep_view()));
                pos = u;
            },
            Err(ParseError::Mismatch) => {
                return Ok((v, pos));
            },
            Err(e) => {
                return Err(e);
            },
        }
    }
}

fn call(src: &Source, p: usize) -> (r: Result<(Command, usize), ParseError>)
    requires
        src.wf(),
        p <= src@.len(),
    ensures
        agrees(r, spec_call(src@, p as int)),
        advances(r, p as int, src@.len() as int),
{
    let ((a, b), q) = match symbol_span(src, p) {
        Ok(x) => x,
        Err(e) => {
            return Err(e);
        },
    };
    let r = match ws_char_at(src, q, '(') {
        Some(r) => r,
        None => {
            return Err(ParseError::Mismatch);
        },
    };
    let (args, t) = match command_arguments(src, r) {
        Ok(x) => x,
        Err(e) => {
            return Err(e);
        },
    };
    let u = match ws_char_at(src, t, ')') {
        Some(u) => u,
        None => {
            return Err(ParseError::Mismatch);
        },
    };
    let end = if src.is(u, ';') {
        u + 1
    } else {
        u
    };
    Ok((Command::Call { name: src.slice(a, b), arguments: args }, end))
}

fn include_directive(src: &Source, p: usize) -> (r: Result<(Command, usize), ParseError>)
    requires
        src.wf(),
        p <= src@.len(),
    ensures
        agrees(r, spec_include(src@, p as int)),
        advances(r, p as int, src@.len() as int),
{
    let q = match src.tag(p, "INCLUDE") {
        Some(q) => q,
        None => {
            return Err(ParseError::Mismatch);
        },
    };
    let q1 = skip(src, q);
    if q1 <= q {
        return Err(ParseError::Mismatch);
    }
    let ((a, b), t) = match pattern_span(src, q1) {
        Ok(x) => x,
        Err(e) => {
            return Err(e);
        },
    };
    let u = skip(src, t);
    let end = if src.is(u, ';') {
        u + 1
    } else {
        u
    };
    Ok((Command::Include { file: src.slice(a, b) }, end))
}

fn insert(src: &Source, p: usize) -> (r: Result<(Command, usize), ParseError>)
    requires
        src.wf(),
        p <= src@.len(),
    ensures
        agrees(r, spec_insert(src@, p as int)),
        advances(r, p as int, src@.len() as int),
{
    let q = match src.tag(p, "INSERT") {
        Some(q) => q,
        None => {
            return Err(ParseError::Mismatch);
        },
    };
    let q1 = skip(src, q);
    let (order, r) = match src.tag(q1, "BEFORE") {
        Some(r) => (InsertOrder::Before, r),
        None => match src.tag(q1, "AFTER") {
            Some(r) => (InsertOrder::After, r),
            None => {
                return Err(ParseError::Mismatch);
            },
        },
    };
    let r1 = skip(src, r);
    let ((a, b), t) = match symbol_span(src, r1) {
        Ok(x) => x,
        Err(e) => {
            return Err(e);
        },
    };
    let u = skip(src, t);
    let end = if src.is(u, ';') {
        u + 1
    } else {
        u
    };
    Ok((Command::Insert { order, section: src.slice(a, b) }, end))
}

pub(crate) fn command_at(src: &Source, p: usize) -> (r: Result<(Command, usize), ParseError>)
    requires
        src.wf(),
        p <= src@.len(),
    ensures
        agrees(r, spec_command(src@, p as int)),
        advances(r, p as int, src@.len() as int),
{
    match include_directive(src, p) {
        Err(ParseError::Mismatch) => match call(src, p) {
            Err(ParseError::Mismatch) => insert(src, p),
            r => r,
        },
        r => r,
    }
}

/// Parses a command at the start of `input`.
pub fn command(input: &str) -> (r: Result<(&str, Command), ParseError>)
    ensures
        outcome(r, input@, spec_command(input@, 0)),
{
    let src = Source::new(input);
    let r = command_at(&src, 0);
    finish(&src, r)
}

} // verus!
