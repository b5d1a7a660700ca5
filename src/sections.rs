//! `SECTIONS` bodies: input-section patterns, output-section commands and
//! output-section declarations.
use vstd::prelude::*;

use crate::commands::{command_at, spec_command, Command, SpecCommand};
use crate::expressions::{expr_view, expression_at, spec_expression, ws_char, ws_char_at, Expression, SpecExpression};
use crate::idents::{pattern_span, spec_pattern, spec_symbol, symbol_span};
use crate::statements::{spec_statement, statement_at, statement_view, SpecStatement, Statement};
use crate::text::{advances, agrees, char_is, finish, outcome, spec_tag, ParseError, Source, SpecResult};
use crate::whitespace::{skip, skip_ws};

verus! {

/// The width of a data directive.
#[derive(Debug, PartialEq, Eq, Clone, Copy)]
pub enum DataType {
    Byte,
    Short,
    Long,
    Quad,
}

/// A pattern selecting input files or sections, possibly sorted or with exclusions.
#[derive(Debug, PartialEq)]
pub enum SectionPattern {
    Simple(String),
    SortByName(String),
    SortByAlignment(String),
    SortByInitPriority(String),
    SortNone(String),
    ExcludeFile { files: Vec<String>, pattern: Box<SectionPattern> },
}

/// The type tag of an output section.
#[derive(Debug, PartialEq, Eq, Clone, Copy)]
pub enum OutputSectionType {
    NoLoad,
    DSect,
    Copy,
    Info,
    Overlay,
}

/// When an output section is created at all.
#[derive(Debug, PartialEq, Eq, Clone, Copy)]
pub enum OutputSectionConstraint {
    OnlyIfRo,
    OnlyIfRw,
}

/// A command of an output-section body.
#[derive(Debug, PartialEq)]
pub enum OutputSectionCommand {
    Statement(Statement),
    Fill { expr: Box<Expression> },
    Data { d_type: DataType, value: Box<Expression> },
    InputSection { file: SectionPattern, sections: Vec<SectionPattern> },
    KeepInputSection { file: SectionPattern, sections: Vec<SectionPattern> },
}

/// A command of a `SECTIONS` body.
#[derive(Debug, PartialEq)]
pub enum SectionCommand {
    Statement(Statement),
    Command(Command),
    OutputSection {
        name: String,
        vma_address: Option<Box<Expression>>,
        s_type: Option<OutputSectionType>,
        lma_address: Option<Box<Expression>>,
        section_align: Option<Box<Expression>>,
        align_with_input: bool,
        subsection_align: Option<Box<Expression>>,
        constraint: Option<OutputSectionConstraint>,
        content: Vec<OutputSectionCommand>,
        region: Option<String>,
        lma_region: Option<String>,
        fillexp: Option<Box<Expression>>,
    },
}

/// The mathematical value of a section pattern.
pub enum SpecSectionPattern {
    Simple(Seq<char>),
    SortByName(Seq<char>),
    SortByAlignment(Seq<char>),
    SortByInitPriority(Seq<char>),
    SortNone(Seq<char>),
    ExcludeFile { files: Seq<Seq<char>>, pattern: Box<SpecSectionPattern> },
}

/// The mathematical value of an output-section command.
pub enum SpecOutputCommand {
    Statement(SpecStatement),
    Fill { expr: SpecExpression },
    Data { d_type: DataType, value: SpecExpression },
    InputSection { file: SpecSectionPattern, sections: Seq<SpecSectionPattern> },
    KeepInputSection { file: SpecSectionPattern, sections: Seq<SpecSectionPattern> },
}

/// The mathematical value of a command of a `SECTIONS` body.
pub enum SpecSectionCommand {
    Statement(SpecStatement),
    Command(SpecCommand),
    OutputSection {
        name: Seq<char>,
        vma_address: Option<SpecExpression>,
        s_type: Option<OutputSectionType>,
        lma_address: Option<SpecExpression>,
        section_align: Option<SpecExpression>,
        align_with_input: bool,
        subsection_align: Option<SpecExpression>,
        constraint: Option<OutputSectionConstraint>,
        content: Seq<SpecOutputCommand>,
        region: Option<Seq<char>>,
        lma_region: Option<Seq<char>>,
        fillexp: Option<SpecExpression>,
    },
}

pub open spec fn pattern_view(sp: SectionPattern) -> SpecSectionPattern
    decreases sp,
{
    match sp {
        SectionPattern::Simple(t) => SpecSectionPattern::Simple(t@),
        SectionPattern::SortByName(t) => SpecSectionPattern::SortByName(t@),
        SectionPattern::SortByAlignment(t) => SpecSectionPattern::SortByAlignment(t@),
        SectionPattern::SortByInitPriority(t) => SpecSectionPattern::SortByInitPriority(t@),
        SectionPattern::SortNone(t) => SpecSectionPattern::SortNone(t@),
        SectionPattern::ExcludeFile { files, pattern } => SpecSectionPattern::ExcludeFile {
            files: files.deep_view(),
            pattern: Box::new(pattern_view(*pattern)),
        },
    }
}

impl DeepView for SectionPattern {
    type V = SpecSectionPattern;

    open spec fn deep_view(&self) -> SpecSectionPattern {
        pattern_view(*self)
    }
}

impl DeepView for OutputSectionType {
    type V = OutputSectionType;

    open spec fn deep_view(&self) -> OutputSectionType {
        *self
    }
}

impl DeepView for OutputSectionConstraint {
    type V = OutputSectionConstraint;

    open spec fn deep_view(&self) -> OutputSectionConstraint {
        *self
    }
}

impl DeepView for OutputSectionCommand {
    type V = SpecOutputCommand;

    open spec fn deep_view(&self) -> SpecOutputCommand {
        match self {
            OutputSectionCommand::Statement(st) => SpecOutputCommand::Statement(statement_view(*st)),
            OutputSectionCommand::Fill { expr } => SpecOutputCommand::Fill { expr: expr_view(**expr) },
            OutputSectionCommand::Data { d_type, value } => SpecOutputCommand::Data {
                d_type: *d_type,
                value: expr_view(**value),
            },
            OutputSectionCommand::InputSection { file, sections } => SpecOutputCommand::InputSection {
                file: pattern_view(*file),
                sections: sections.deep_view(),
            },
            OutputSectionCommand::KeepInputSection { file, sections } =>
                SpecOutputCommand::KeepInputSection {
                file: pattern_view(*file),
                sections: sections.deep_view(),
            },
        }
    }
}

impl DeepView for SectionCommand {
    type V = SpecSectionCommand;

    open spec fn deep_view(&self) -> SpecSectionCommand {
        match self {
            SectionCommand::Statement(st) => SpecSectionCommand::Statement(statement_view(*st)),
            SectionCommand::Command(c) => SpecSectionCommand::Command(c.deep_view()),
            SectionCommand::OutputSection {
                name,
                vma_address,
                s_type,
                lma_address,
                section_align,
                align_with_input,
                subsection_align,
                constraint,
                content,
                region,
                lma_region,
                fillexp,
            } => SpecSectionCommand::OutputSection {
                name: name@,
                vma_address: vma_address.deep_view(),
                s_type: *s_type,
                lma_address: lma_address.deep_view(),
                section_align: section_align.deep_view(),
                align_with_input: *align_with_input,
                subsection_align: subsection_align.deep_view(),
                constraint: *constraint,
                content: content.deep_view(),
                region: region.deep_view(),
                lma_region: lma_region.deep_view(),
                fillexp: fillexp.deep_view(),
            },
        }
    }
}


/// Zero or more patterns, each with the blanks and comments around it, that
/// follow the patterns `acc` at `p`.
pub open spec fn spec_file_patterns(s: Seq<char>, p: int, acc: Seq<Seq<char>>) -> SpecResult<
    Seq<Seq<char>>,
>
    decreases s.len() - p,
{
    match spec_pattern(s, skip_ws(s, p)) {
        Err(ParseError::Mismatch) => Ok((acc, p)),
        Err(e) => Err(e),
        Ok((f, q)) => {
            let r = skip_ws(s, q);
            if !(p < r <= s.len()) {
                Err(ParseError::Fatal)
            } else {
                spec_file_patterns(s, r, acc.push(f))
            }
        },
    }
}

/// `EXCLUDE_FILE ( patterns ) section-pattern`. Once `EXCLUDE_FILE (` is read,
/// any failure is committed.
pub open spec fn spec_exclude_file(s: Seq<char>, p: int) -> SpecResult<SpecSectionPattern>
    decreases s.len() - p, 0nat,
{
    match spec_tag(s, p, "EXCLUDE_FILE"@) {
        None => Err(ParseError::Mismatch),
        Some(q) => {
            let q1 = skip_ws(s, q);
            if !char_is(s, q1, '(') {
                Err(ParseError::Mismatch)
            } else {
                match spec_file_patterns(s, q1 + 1, Seq::empty()) {
                    Err(e) => Err(e),
                    Ok((files, t)) => if files.len() == 0 || !char_is(s, t, ')') {
                        Err(ParseError::Fatal)
                    } else {
                        let u = skip_ws(s, t + 1);
                        if !(p < u <= s.len()) {
                            Err(ParseError::Fatal)
                        } else {
                            match spec_section_pattern(s, u) {
                                Err(_) => Err(ParseError::Fatal),
                                Ok((inner, v)) => Ok(
                                    (
                                        SpecSectionPattern::ExcludeFile {
                                            files,
                                            pattern: Box::new(inner),
                                        },
                                        v,
                                    ),
                                ),
                            }
                        }
                    },
                }
            }
        },
    }
}

/// Which sort keyword starts at `p` (tried in the order `SORT_BY_NAME`,
/// `SORT_BY_ALIGNMENT`, `SORT_BY_INIT_PRIORITY`, `SORT_NONE`, `SORT`), as 0 for
/// sorting by name, 1 by alignment, 2 by init priority, 3 for no sorting, and
/// the position after it.
pub open spec fn sort_keyword(s: Seq<char>, p: int) -> Option<(int, int)> {
    match spec_tag(s, p, "SORT_BY_NAME"@) {
        Some(q) => Some((0, q)),
        None => match spec_tag(s, p, "SORT_BY_ALIGNMENT"@) {
            Some(q) => Some((1, q)),
            None => match spec_tag(s, p, "SORT_BY_INIT_PRIORITY"@) {
                Some(q) => Some((2, q)),
                None => match spec_tag(s, p, "SORT_NONE"@) {
                    Some(q) => Some((3, q)),
                    None => match spec_tag(s, p, "SORT"@) {
                        Some(q) => Some((0, q)),
                        None => None,
                    },
                },
            },
        },
    }
}

pub open spec fn sorted_pattern(kind: int, t: Seq<char>) -> SpecSectionPattern {
    if kind == 0 {
        SpecSectionPattern::SortByName(t)
    } else if kind == 1 {
        SpecSectionPattern::SortByAlignment(t)
    } else if kind == 2 {
        SpecSectionPattern::SortByInitPriority(t)
    } else {
        SpecSectionPattern::SortNone(t)
    }
}

/// A sort keyword then `( pattern )`; once the keyword is read, any failure
/// is committed.
pub open spec fn spec_sorted(s: Seq<char>, p: int) -> SpecResult<SpecSectionPattern> {
    match sort_keyword(s, p) {
        None => Err(ParseError::Mismatch),
        Some((kind, q)) => match ws_char(s, q, '(') {
            None => Err(ParseError::Fatal),
            Some(r) => match spec_pattern(s, r) {
                Err(_) => Err(ParseError::Fatal),
                Ok((t, u)) => {
                    let v = skip_ws(s, u);
                    if char_is(s, v, ')') {
                        Ok((sorted_pattern(kind, t), v + 1))
                    } else {
                        Err(ParseError::Fatal)
                    }
                },
            },
        },
    }
}

/// A section pattern: an exclusion, then a sort, then a plain pattern.
pub open spec fn spec_section_pattern(s: Seq<char>, p: int) -> SpecResult<SpecSectionPattern>
    decreases s.len() - p, 1nat,
{
    match spec_exclude_file(s, p) {
        Err(ParseError::Mismatch) => match spec_sorted(s, p) {
            Err(ParseError::Mismatch) => match spec_pattern(s, p) {
                Err(e) => Err(e),
                Ok((t, q)) => Ok((SpecSectionPattern::Simple(t), q)),
            },
            r => r,
        },
        r => r,
    }
}

fn file_patterns(src: &Source, p: usize) -> (r: Result<(Vec<String>, usize), ParseError>)
    requires
        src.wf(),
        p <= src@.len(),
    ensures
        agrees(r, spec_file_patterns(src@, p as int, Seq::empty())),
        r matches Ok((_, q)) ==> p <= q <= src@.len(),
{
    let ghost s = src@;
    let ghost g = spec_file_patterns(s, p as int, Seq::empty());
    let mut v: Vec<String> = Vec::new();
    assert(v.deep_view() =~= Seq::<Seq<char>>::empty());
    let mut pos = p;
    loop
        invariant
            src.wf(),
            s == src@,
            p <= pos <= s.len(),
            spec_file_patterns(s, p as int, Seq::empty()) == g,
            spec_file_patterns(s, pos as int, v.deep_view()) == g,
        decreases s.len() - pos,
    {
        let x = skip(src, pos);
        match pattern_span(src, x) {
            Ok(((a, b), q)) => {
                let r = skip(src, q);
                let ghost before = v.deep_view();
                let f = src.slice(a, b);
                v.push(f);
                assert(v.deep_view() =~= before.push(f@));
                pos = r;
            },
            Err(ParseError::Mismatch) => {
                return Ok((v, pos));
            },
            Err(e) => {
                return Err(e);
            },
        }
    }
}

fn exclude_file(src: &Source, p: usize) -> (r: Result<(SectionPattern, usize), ParseError>)
    requires
        src.wf(),
        p <= src@.len(),
    ensures
        agrees(r, spec_exclude_file(src@, p as int)),
        advances(r, p as int, src@.len() as int),
    decreases src@.len() - p, 0nat,
{
    let q = match src.tag(p, "EXCLUDE_FILE") {
        Some(q) => q,
        None => {
            return Err(ParseError::Mismatch);
        },
    };
    let q1 = skip(src, q);
    if !src.is(q1, '(') {
        return Err(ParseError::Mismatch);
    }
    let (files, t) = match file_patterns(src, q1 + 1) {
        Ok(x) => x,
        Err(e) => {
            return Err(e);
        },
    };
    if files.len() == 0 || !src.is(t, ')') {
        return Err(ParseError::Fatal);
    }
    let u = skip(src, t + 1);
    match section_pattern_at(src, u) {
        Ok((inner, v)) => Ok((SectionPattern::ExcludeFile { files, pattern: Box::new(inner) }, v)),
        Err(_) => Err(ParseError::Fatal),
    }
}

fn sorted(src: &Source, p: usize) -> (r: Result<(SectionPattern, usize), ParseError>)
    requires
        src.wf(),
        p <= src@.len(),
    ensures
        agrees(r, spec_sorted(src@, p as int)),
        advances(r, p as int, src@.len() as int),
{
    let (kind, q): (u8, usize) = match src.tag(p, "SORT_BY_NAME") {
        Some(q) => (0, q),
        None => match src.tag(p, "SORT_BY_ALIGNMENT") {
            Some(q) => (1, q),
            None => match src.tag(p, "SORT_BY_INIT_PRIORITY") {
                Some(q) => (2, q),
                None => match src.tag(p, "SORT_NONE") {
                    Some(q) => (3, q),
                    None => match src.tag(p, "SORT") {
                        Some(q) => (0, q),
                        None => {
                            return Err(ParseError::Mismatch);
                        },
                    },
                },
            },
        },
    };
    let r = match ws_char_at(src, q, '(') {
        Some(r) => r,
        None => {
            return Err(ParseError::Fatal);
        },
    };
    let ((a, b), u) = match pattern_span(src, r) {
        Ok(x) => x,
        Err(_) => {
            return Err(ParseError::Fatal);
        },
    };
    let v = skip(src, u);
    if !src.is(v, ')') {
        return Err(ParseError::Fatal);
    }
    let t = src.slice(a, b);
    let sp = if kind == 0 {
        SectionPattern::SortByName(t)
    } else if kind == 1 {
        SectionPattern::SortByAlignment(t)
    } else if kind == 2 {
        SectionPattern::SortByInitPriority(t)
    } else {
        SectionPattern::SortNone(t)
    };
    Ok((sp, v + 1))
}

pub(crate) fn section_pattern_at(src: &Source, p: usize) -> (r: Result<(SectionPattern, usize), ParseError>)
    requires
        src.wf(),
        p <= src@.len(),
    ensures
        agrees(r, spec_section_pattern(src@, p as int)),
        advances(r, p as int, src@.len() as int),
    decreases src@.len() - p, 1nat,
{
    match exclude_file(src, p) {
        Err(ParseError::Mismatch) => {},
        r => {
            return r;
        },
    }
    match sorted(src, p) {
        Err(ParseError::Mismatch) => {},
        r => {
            return r;
        },
    }
    match pattern_span(src, p) {
        Ok(((a, b), q)) => Ok((SectionPattern::Simple(src.slice(a, b)), q)),
        Err(e) => Err(e),
    }
}

/// Parses a section pattern at the start of `input`.
pub fn section_pattern(input: &str) -> (r: Result<(&str, SectionPattern), ParseError>)
    ensures
        outcome(r, input@, spec_section_pattern(input@, 0)),
{
    let src = Source::new(input);
    let r = section_pattern_at(&src, 0);
    finish(&src, r)
}


/// Zero or more section patterns, each with the blanks and comments around
/// it, that follow the patterns `acc` at `p`.
pub open spec fn spec_section_patterns(
    s: Seq<char>,
    p: int,
    acc: Seq<SpecSectionPattern>,
) -> SpecResult<Seq<SpecSectionPattern>>
    decreases s.len() - p,
{
    match spec_section_pattern(s, skip_ws(s, p)) {
        Err(ParseError::Mismatch) => Ok((acc, p)),
        Err(e) => Err(e),
        Ok((sp, q)) => {
            let r = skip_ws(s, q);
            if !(p < r <= s.len()) {
                Err(ParseError::Fatal)
            } else {
                spec_section_patterns(s, r, acc.push(sp))
            }
        },
    }
}

/// An input-section description: a file pattern, then optionally a
/// parenthesized list of one or more section patterns (none means the whole
/// file).
pub open spec fn spec_input_section(s: Seq<char>, p: int) -> SpecResult<
    (SpecSectionPattern, Seq<SpecSectionPattern>),
> {
    match spec_section_pattern(s, p) {
        Err(e) => Err(e),
        Ok((file, q)) => {
            let q1 = skip_ws(s, q);
            let list = match ws_char(s, q1, '(') {
                None => Err(ParseError::Mismatch),
                Some(r) => match spec_section_patterns(s, r, Seq::empty()) {
                    Err(e) => Err(e),
                    Ok((l, t)) => if l.len() == 0 {
                        Err(ParseError::Mismatch)
                    } else {
                        match ws_char(s, t, ')') {
                            None => Err(ParseError::Mismatch),
                            Some(u) => Ok((l, u)),
                        }
                    },
                },
            };
            match list {
                Err(ParseError::Mismatch) => Ok(((file, Seq::empty()), q1)),
                Err(e) => Err(e),
                Ok((l, u)) => Ok(((file, l), u)),
            }
        },
    }
}

/// `KEEP ( input-section )`
pub open spec fn spec_keep(s: Seq<char>, p: int) -> SpecResult<SpecOutputCommand> {
    match spec_tag(s, p, "KEEP"@) {
        None => Err(ParseError::Mismatch),
        Some(q) => match ws_char(s, q, '(') {
            None => Err(ParseError::Mismatch),
            Some(r) => match spec_input_section(s, r) {
                Err(e) => Err(e),
                Ok(((file, sections), t)) => match ws_char(s, t, ')') {
                    None => Err(ParseError::Mismatch),
                    Some(u) => Ok((SpecOutputCommand::KeepInputSection { file, sections }, u)),
                },
            },
        },
    }
}

/// `BYTE`, `SHORT`, `LONG` or `QUAD` at `p`, and the position after it.
pub open spec fn data_keyword(s: Seq<char>, p: int) -> Option<(DataType, int)> {
    match spec_tag(s, p, "BYTE"@) {
        Some(q) => Some((DataType::Byte, q)),
        None => match spec_tag(s, p, "SHORT"@) {
            Some(q) => Some((DataType::Short, q)),
            None => match spec_tag(s, p, "LONG"@) {
                Some(q) => Some((DataType::Long, q)),
                None => match spec_tag(s, p, "QUAD"@) {
                    Some(q) => Some((DataType::Quad, q)),
                    None => None,
                },
            },
        },
    }
}

/// `( expression )` after a keyword ending at `q`, with an optional `;`.
pub open spec fn spec_parenthesized(s: Seq<char>, q: int) -> SpecResult<SpecExpression> {
    match ws_char(s, q, '(') {
        None => Err(ParseError::Mismatch),
        Some(r) => match spec_expression(s, r) {
            Err(e) => Err(e),
            Ok((e, t)) => match ws_char(s, t, ')') {
                None => Err(ParseError::Mismatch),
                Some(u) => Ok(
                    (
                        e,
                        if char_is(s, u, ';') {
                            u + 1
                        } else {
                            u
                        },
                    ),
                ),
            },
        },
    }
}

/// `BYTE ( expression )` and the like, with an optional `;`.
pub open spec fn spec_data(s: Seq<char>, p: int) -> SpecResult<SpecOutputCommand> {
    match data_keyword(s, p) {
        None => Err(ParseError::Mismatch),
        Some((d_type, q)) => match spec_parenthesized(s, q) {
            Err(e) => Err(e),
            Ok((value, r)) => Ok((SpecOutputCommand::Data { d_type, value }, r)),
        },
    }
}

/// `FILL ( expression )`, with an optional `;`.
pub open spec fn spec_fill(s: Seq<char>, p: int) -> SpecResult<SpecOutputCommand> {
    match spec_tag(s, p, "FILL"@) {
        None => Err(ParseError::Mismatch),
        Some(q) => match spec_parenthesized(s, q) {
            Err(e) => Err(e),
            Ok((expr, r)) => Ok((SpecOutputCommand::Fill { expr }, r)),
        },
    }
}

/// A command of an output-section body: a statement, `KEEP`, a data
/// directive, `FILL`, else an input-section description.
pub open spec fn spec_output_section_command(s: Seq<char>, p: int) -> SpecResult<SpecOutputCommand> {
    match spec_statement(s, p) {
        Ok((st, q)) => Ok((SpecOutputCommand::Statement(st), q)),
        Err(ParseError::Fatal) => Err(ParseError::Fatal),
        Err(ParseError::Mismatch) => match spec_keep(s, p) {
            Err(ParseError::Mismatch) => match spec_data(s, p) {
                Err(ParseError::Mismatch) => match spec_fill(s, p) {
                    Err(ParseError::Mismatch) => match spec_input_section(s, p) {
                        Err(e) => Err(e),
                        Ok(((file, sections), q)) => Ok(
                            (SpecOutputCommand::InputSection { file, sections }, q),
                        ),
                    },
                    r => r,
                },
                r => r,
            },
            r => r,
        },
    }
}

fn section_patterns(src: &Source, p: usize) -> (r: Result<(Vec<SectionPattern>, usize), ParseError>)
    requires
        src.wf(),
        p <= src@.len(),
    ensures
        agrees(r, spec_section_patterns(src@, p as int, Seq::empty())),
        r matches Ok((_, q)) ==> p <= q <= src@.len(),
{
    let ghost s = src@;
    let ghost g = spec_section_patterns(s, p as int, Seq::empty());
    let mut v: Vec<SectionPattern> = Vec::new();
    assert(v.deep_view() =~= Seq::<SpecSectionPattern>::empty());
    let mut pos = p;
    loop
        invariant
            src.wf(),
            s == src@,
            p <= pos <= s.len(),
            spec_section_patterns(s, p as int, Seq::empty()) == g,
            spec_section_patterns(s, pos as int, v.deep_view()) == g,
        decreases s.len() - pos,
    {
        let x = skip(src, pos);
        match section_pattern_at(src, x) {
            Ok((sp, q)) => {
                let r = skip(src, q);
                let ghost before = v.deep_view();
                v.push(sp);
                assert(v.deep_view() =~= before.push(sp.deep_view()));
                pos = r;
            },
            Err(ParseError::Mismatch) => {
                return Ok((v, pos));
            },
            Err(e) => {
                return Err(e);
            },
        }
    }
}

fn input_section(src: &Source, p: usize) -> (r: Result<((SectionPattern, Vec<SectionPattern>), usize), ParseError>)
    requires
        src.wf(),
        p <= src@.len(),
    ensures
        agrees(r, spec_input_section(src@, p as int)),
        advances(r, p as int, src@.len() as int),
{
    let (file, q) = match section_pattern_at(src, p) {
        Ok(x) => x,
        Err(e) => {
            return Err(e);
        },
    };
    let q1 = skip(src, q);
    if let Some(r) = ws_char_at(src, q1, '(') {
        match section_patterns(src, r) {
            Ok((l, t)) => {
                if l.len() > 0 {
                    if let Some(u) = ws_char_at(src, t, ')') {
                        return Ok(((file, l), u));
                    }
                }
            },
            Err(ParseError::Mismatch) => {},
            Err(e) => {
                return Err(e);
            },
        }
    }
    let v: Vec<SectionPattern> = Vec::new();
    assert(v.deep_view() =~= Seq::<SpecSectionPattern>::empty());
    Ok(((file, v), q1))
}

fn keep(src: &Source, p: usize) -> (r: Result<(OutputSectionCommand, usize), ParseError>)
    requires
        src.wf(),
        p <= src@.len(),
    ensures
        agrees(r, spec_keep(src@, p as int)),
        advances(r, p as int, src@.len() as int),
{
    let q = match src.tag(p, "KEEP") {
        Some(q) => q,
        None => {
            return Err(ParseError::Mismatch);
        },
    };
    let r = match ws_char_at(src, q, '(') {
        Some(r) => r,
        None => {
            return Err(ParseError::Mismatch);
        },
    };
    let ((file, sections), t) = match input_section(src, r) {
        Ok(x) => x,
        Err(e) => {
            return Err(e);
        },
    };
    match ws_char_at(src, t, ')') {
        Some(u) => Ok((OutputSectionCommand::KeepInputSection { file, sections }, u)),
        None => Err(ParseError::Mismatch),
    }
}

fn parenthesized(src: &Source, q: usize) -> (r: Result<(Expression, usize), ParseError>)
    requires
        src.wf(),
        q <= src@.len(),
    ensures
        agrees(r, spec_parenthesized(src@, q as int)),
        advances(r, q as int, src@.len() as int),
{
    let r = match ws_char_at(src, q, '(') {
        Some(r) => r,
        None => {
            return Err(ParseError::Mismatch);
        },
    };
    let (e, t) = match expression_at(src, r) {
        Ok(x) => x,
        Err(e) => {
            return Err(e);
        },
    };
    match ws_char_at(src, t, ')') {
        Some(u) => {
            let end = if src.is(u, ';') {
                u + 1
            } else {
                u
            };
            Ok((e, end))
        },
        None => Err(ParseError::Mismatch),
    }
}

fn data(src: &Source, p: usize) -> (r: Result<(OutputSectionCommand, usize), ParseError>)
    requires
        src.wf(),
        p <= src@.len(),
    ensures
        agrees(r, spec_data(src@, p as int)),
        advances(r, p as int, src@.len() as int),
{
    let (d_type, q) = match src.tag(p, "BYTE") {
        Some(q) => (DataType::Byte, q),
        None => match src.tag(p, "SHORT") {
            Some(q) => (DataType::Short, q),
            None => match src.tag(p, "LONG") {
                Some(q) => (DataType::Long, q),
                None => match src.tag(p, "QUAD") {
                    Some(q) => (DataType::Quad, q),
                    None => {
                        return Err(ParseError::Mismatch);
                    },
                },
            },
        },
    };
    match parenthesized(src, q) {
        Ok((value, r)) => Ok((OutputSectionCommand::Data { d_type, value: Box::new(value) }, r)),
        Err(e) => Err(e),
    }
}

fn fill(src: &Source, p: usize) -> (r: Result<(OutputSectionCommand, usize), ParseError>)
    requires
        src.wf(),
        p <= src@.len(),
    ensures
        agrees(r, spec_fill(src@, p as int)),
        advances(r, p as int, src@.len() as int),
{
    let q = match src.tag(p, "FILL") {
        Some(q) => q,
        None => {
            return Err(ParseError::Mismatch);
        },
    };
    match parenthesized(src, q) {
        Ok((expr, r)) => Ok((OutputSectionCommand::Fill { expr: Box::new(expr) }, r)),
        Err(e) => Err(e),
    }
}

pub(crate) fn output_section_command_at(src: &Source, p: usize) -> (r: Result<(OutputSectionCommand, usize), ParseError>)
    requires
        src.wf(),
        p <= src@.len(),
    ensures
        agrees(r, spec_output_section_command(src@, p as int)),
        advances(r, p as int, src@.len() as int),
{
    match statement_at(src, p) {
        Ok((st, q)) => {
            return Ok((OutputSectionCommand::Statement(st), q));
        },
        Err(ParseError::Fatal) => {
            return Err(ParseError::Fatal);
        },
        Err(ParseError::Mismatch) => {},
    }
    match keep(src, p) {
        Err(ParseError::Mismatch) => {},
        r => {
            return r;
        },
    }
    match data(src, p) {
        Err(ParseError::Mismatch) => {},
        r => {
            return r;
        },
    }
    match fill(src, p) {
        Err(ParseError::Mismatch) => {},
        r => {
            return r;
        },
    }
    match input_section(src, p) {
        Ok(((file, sections), q)) => Ok((OutputSectionCommand::InputSection { file, sections }, q)),
        Err(e) => Err(e),
    }
}

/// Parses an input-section description at the start of `input`.
pub fn input_osc(input: &str) -> (r: Result<(&str, OutputSectionCommand), ParseError>)
    ensures
        outcome(
            r,
            input@,
            match spec_input_section(input@, 0) {
                Err(e) => Err(e),
                Ok(((file, sections), q)) => Ok((SpecOutputCommand::InputSection { file, sections }, q)),
            },
        ),
{
    let src = Source::new(input);
    let r = match input_section(&src, 0) {
        Ok(((file, sections), q)) => Ok((OutputSectionCommand::InputSection { file, sections }, q)),
        Err(e) => Err(e),
    };
    finish(&src, r)
}

/// Parses a statement as a command of an output-section body, at the start of `input`.
pub fn statement_osc(input: &str) -> (r: Result<(&str, OutputSectionCommand), ParseError>)
    ensures
        outcome(
            r,
            input@,
            match spec_statement(input@, 0) {
                Err(e) => Err(e),
                Ok((st, q)) => Ok((SpecOutputCommand::Statement(st), q)),
            },
        ),
{
    let src = Source::new(input);
    let r = match statement_at(&src, 0) {
        Ok((st, q)) => Ok((OutputSectionCommand::Statement(st), q)),
        Err(e) => Err(e),
    };
    finish(&src, r)
}

/// Parses a command of an output-section body at the start of `input`.
pub fn output_section_command(input: &str) -> (r: Result<(&str, OutputSectionCommand), ParseError>)
    ensures
        outcome(r, input@, spec_output_section_command(input@, 0)),
{
    let src = Source::new(input);
    let r = output_section_command_at(&src, 0);
    finish(&src, r)
}


/// Zero or more output-section commands, each with the blanks and comments
/// around it, that follow the commands `acc` at `p`.
pub open spec fn spec_output_commands(
    s: Seq<char>,
    p: int,
    acc: Seq<SpecOutputCommand>,
) -> SpecResult<Seq<SpecOutputCommand>>
    decreases s.len() - p,
{
    match spec_output_section_command(s, skip_ws(s, p)) {
        Err(ParseError::Mismatch) => Ok((acc, p)),
        Err(e) => Err(e),
        Ok((c, q)) => {
            let r = skip_ws(s, q);
            if !(p < r <= s.len()) {
                Err(ParseError::Fatal)
            } else {
                spec_output_commands(s, r, acc.push(c))
            }
        },
    }
}

/// An output-section type tag at `p`: `(NOLOAD)`, `(DSECT)`, `(COPY)`,
/// `(INFO)` or `(OVERLAY)`.
pub open spec fn spec_section_type(s: Seq<char>, p: int) -> Option<(OutputSectionType, int)> {
    match spec_tag(s, p, "(NOLOAD)"@) {
        Some(q) => Some((OutputSectionType::NoLoad, q)),
        None => match spec_tag(s, p, "(DSECT)"@) {
            Some(q) => Some((OutputSectionType::DSect, q)),
            None => match spec_tag(s, p, "(COPY)"@) {
                Some(q) => Some((OutputSectionType::Copy, q)),
                None => match spec_tag(s, p, "(INFO)"@) {
                    Some(q) => Some((OutputSectionType::Info, q)),
                    None => match spec_tag(s, p, "(OVERLAY)"@) {
                        Some(q) => Some((OutputSectionType::Overlay, q)),
                        None => None,
                    },
                },
            },
        },
    }
}

/// `ONLY_IF_RO` or `ONLY_IF_RW` at `p`.
pub open spec fn spec_constraint(s: Seq<char>, p: int) -> Option<(OutputSectionConstraint, int)> {
    match spec_tag(s, p, "ONLY_IF_RO"@) {
        Some(q) => Some((OutputSectionConstraint::OnlyIfRo, q)),
        None => match spec_tag(s, p, "ONLY_IF_RW"@) {
            Some(q) => Some((OutputSectionConstraint::OnlyIfRw, q)),
            None => None,
        },
    }
}

/// An optional expression at `p`.
pub open spec fn spec_optional_expression(s: Seq<char>, p: int) -> SpecResult<Option<SpecExpression>> {
    match spec_expression(s, p) {
        Err(ParseError::Mismatch) => Ok((None, p)),
        Err(e) => Err(e),
        Ok((e, q)) => Ok((Some(e), q)),
    }
}

/// An optional `kw expression )`, where `kw` ends with the opening parenthesis.
pub open spec fn spec_keyword_call(s: Seq<char>, p: int, kw: Seq<char>) -> SpecResult<
    Option<SpecExpression>,
> {
    let inner = match spec_tag(s, p, kw) {
        None => Err(ParseError::Mismatch),
        Some(q) => match spec_expression(s, skip_ws(s, q)) {
            Err(e) => Err(e),
            Ok((e, r)) => {
                let t = skip_ws(s, r);
                if char_is(s, t, ')') {
                    Ok((e, t + 1))
                } else {
                    Err(ParseError::Mismatch)
                }
            },
        },
    };
    match inner {
        Err(ParseError::Mismatch) => Ok((None, p)),
        Err(e) => Err(e),
        Ok((e, q)) => Ok((Some(e), q)),
    }
}

/// An optional `kw symbol`, with the blanks and comments after the symbol.
pub open spec fn spec_region_ref(s: Seq<char>, p: int, kw: Seq<char>) -> SpecResult<Option<Seq<char>>> {
    match spec_tag(s, p, kw) {
        None => Ok((None, p)),
        Some(q) => match spec_symbol(s, skip_ws(s, q)) {
            Err(ParseError::Mismatch) => Ok((None, p)),
            Err(e) => Err(e),
            Ok((n, r)) => Ok((Some(n), skip_ws(s, r))),
        },
    }
}

/// An optional `= expression`, with the blanks and comments after it.
pub open spec fn spec_fill_expression(s: Seq<char>, p: int) -> SpecResult<Option<SpecExpression>> {
    if !char_is(s, p, '=') {
        Ok((None, p))
    } else {
        match spec_expression(s, skip_ws(s, p + 1)) {
            Err(ParseError::Mismatch) => Ok((None, p)),
            Err(e) => Err(e),
            Ok((e, r)) => Ok((Some(e), skip_ws(s, r))),
        }
    }
}

/// The name of an output section: `/DISCARD/` or a symbol.
pub open spec fn spec_section_name(s: Seq<char>, p: int) -> SpecResult<Seq<char>> {
    match spec_tag(s, p, "/DISCARD/"@) {
        Some(q) => Ok((s.subrange(p, q), q)),
        None => spec_symbol(s, p),
    }
}

/// The head of an output-section declaration: the name, an optional type
/// tag, an optional address, an optional type tag, then `:`. A type tag
/// before the address takes precedence over one after it.
pub open spec fn spec_section_head(s: Seq<char>, p: int) -> SpecResult<
    (Seq<char>, Option<SpecExpression>, Option<OutputSectionType>),
> {
    match spec_section_name(s, p) {
        Err(e) => Err(e),
        Ok((name, q)) => {
            let q1 = skip_ws(s, q);
            let type1 = spec_section_type(s, q1);
            let q2 = match type1 {
                Some((_, x)) => x,
                None => q1,
            };
            match spec_optional_expression(s, skip_ws(s, q2)) {
                Err(e) => Err(e),
                Ok((vma, x)) => {
                    let q4 = skip_ws(s, x);
                    let type2 = spec_section_type(s, q4);
                    let q5 = match type2 {
                        Some((_, y)) => y,
                        None => q4,
                    };
                    let s_type = match type1 {
                        Some((t, _)) => Some(t),
                        None => match type2 {
                            Some((t, _)) => Some(t),
                            None => None,
                        },
                    };
                    match ws_char(s, q5, ':') {
                        None => Err(ParseError::Mismatch),
                        Some(q6) => Ok(((name, vma, s_type), q6)),
                    }
                },
            }
        },
    }
}

/// The attributes between `:` and the body: optional `AT(..)`, `ALIGN(..)`,
/// `ALIGN_WITH_INPUT`, `SUBALIGN(..)` and constraint, then `{`.
pub open spec fn spec_section_attributes(s: Seq<char>, p: int) -> SpecResult<
    (
        Option<SpecExpression>,
        Option<SpecExpression>,
        bool,
        Option<SpecExpression>,
        Option<OutputSectionConstraint>,
    ),
> {
    match spec_keyword_call(s, p, "AT("@) {
        Err(e) => Err(e),
        Ok((lma, y)) => match spec_keyword_call(s, skip_ws(s, y), "ALIGN("@) {
            Err(e) => Err(e),
            Ok((align, z)) => {
                let a = skip_ws(s, z);
                let with_input = spec_tag(s, a, "ALIGN_WITH_INPUT"@);
                let b = match with_input {
                    Some(w) => w,
                    None => a,
                };
                match spec_keyword_call(s, skip_ws(s, b), "SUBALIGN("@) {
                    Err(e) => Err(e),
                    Ok((subalign, c)) => {
                        let d = skip_ws(s, c);
                        let constraint = spec_constraint(s, d);
                        let d1 = match constraint {
                            Some((_, w)) => w,
                            None => d,
                        };
                        match ws_char(s, skip_ws(s, d1), '{') {
                            None => Err(ParseError::Mismatch),
                            Some(f) => Ok(
                                (
                                    (
                                        lma,
                                        align,
                                        with_input is Some,
                                        subalign,
                                        match constraint {
                                            Some((t, _)) => Some(t),
                                            None => None,
                                        },
                                    ),
                                    f,
                                ),
                            ),
                        }
                    },
                }
            },
        },
    }
}

/// What follows the body: optional `> region`, `AT> region` and `= fill`,
/// then an optional `,`.
pub open spec fn spec_section_tail(s: Seq<char>, p: int) -> SpecResult<
    (Option<Seq<char>>, Option<Seq<char>>, Option<SpecExpression>),
> {
    match spec_region_ref(s, p, ">"@) {
        Err(e) => Err(e),
        Ok((region, i)) => match spec_region_ref(s, i, "AT>"@) {
            Err(e) => Err(e),
            Ok((lma_region, j)) => match spec_fill_expression(s, j) {
                Err(e) => Err(e),
                Ok((fillexp, k)) => Ok(
                    (
                        (region, lma_region, fillexp),
                        if char_is(s, k, ',') {
                            k + 1
                        } else {
                            k
                        },
                    ),
                ),
            },
        },
    }
}

/// An output-section declaration: its head, its attributes, `{ commands }`,
/// and what follows the body.
pub open spec fn spec_output_section(s: Seq<char>, p: int) -> SpecResult<SpecSectionCommand> {
    match spec_section_head(s, p) {
        Err(e) => Err(e),
        Ok(((name, vma, s_type), q)) => match spec_section_attributes(s, q) {
            Err(e) => Err(e),
            Ok(((lma, align, with_input, subalign, constraint), f)) => match spec_output_commands(
                s,
                f,
                Seq::empty(),
            ) {
                Err(e) => Err(e),
                Ok((content, g)) => match ws_char(s, g, '}') {
                    None => Err(ParseError::Mismatch),
                    Some(h) => match spec_section_tail(s, h) {
                        Err(e) => Err(e),
                        Ok(((region, lma_region, fillexp), k)) => Ok(
                            (
                                SpecSectionCommand::OutputSection {
                                    name,
                                    vma_address: vma,
                                    s_type,
                                    lma_address: lma,
                                    section_align: align,
                                    align_with_input: with_input,
                                    subsection_align: subalign,
                                    constraint,
                                    content,
                                    region,
                                    lma_region,
                                    fillexp,
                                },
                                k,
                            ),
                        ),
                    },
                },
            },
        },
    }
}

/// A command of a `SECTIONS` body: a statement, an output section, a command.
pub open spec fn spec_section_command(s: Seq<char>, p: int) -> SpecResult<SpecSectionCommand> {
    match spec_statement(s, p) {
        Ok((st, q)) => Ok((SpecSectionCommand::Statement(st), q)),
        Err(ParseError::Fatal) => Err(ParseError::Fatal),
        Err(ParseError::Mismatch) => match spec_output_section(s, p) {
            Err(ParseError::Mismatch) => match spec_command(s, p) {
                Err(e) => Err(e),
                Ok((c, q)) => Ok((SpecSectionCommand::Command(c), q)),
            },
            r => r,
        },
    }
}


fn output_commands(src: &Source, p: usize) -> (r: Result<(Vec<OutputSectionCommand>, usize), ParseError>)
    requires
        src.wf(),
        p <= src@.len(),
    ensures
        agrees(r, spec_output_commands(src@, p as int, Seq::empty())),
        r matches Ok((_, q)) ==> p <= q <= src@.len(),
{
    let ghost s = src@;
    let ghost g = spec_output_commands(s, p as int, Seq::empty());
    let mut v: Vec<OutputSectionCommand> = Vec::new();
    assert(v.deep_view() =~= Seq::<SpecOutputCommand>::empty());
    let mut pos = p;
    loop
        invariant
            src.wf(),
            s == src@,
            p <= pos <= s.len(),
            spec_output_commands(s, p as int, Seq::empty()) == g,
            spec_output_commands(s, pos as int, v.deep_view()) == g,
        decreases s.len() - pos,
    {
        let x = skip(src, pos);
        match output_section_command_at(src, x) {
            Ok((c, q)) => {
                let r = skip(src, q);
                let ghost before = v.deep_view();
                v.push(c);
                assert(v.deep_view() =~= before.push(c.deep_view()));
                pos = r;
            },
            Err(ParseError::Mismatch) => {
                return Ok((v, pos));
            },
            Err(e) => {
                return Err(e);
            },
        }
    }
}

fn section_type_at(src: &Source, p: usize) -> (r: Option<(OutputSectionType, usize)>)
    requires
        src.wf(),
        p <= src@.len(),
    ensures
        match r {
            Some((t, q)) => spec_section_type(src@, p as int) == Some((t, q as int)) && q <= src@.len(),
            None => spec_section_type(src@, p as int) is None,
        },
{
    match src.tag(p, "(NOLOAD)") {
        Some(q) => Some((OutputSectionType::NoLoad, q)),
        None => match src.tag(p, "(DSECT)") {
            Some(q) => Some((OutputSectionType::DSect, q)),
            None => match src.tag(p, "(COPY)") {
                Some(q) => Some((OutputSectionType::Copy, q)),
                None => match src.tag(p, "(INFO)") {
                    Some(q) => Some((OutputSectionType::Info, q)),
                    None => match src.tag(p, "(OVERLAY)") {
                        Some(q) => Some((OutputSectionType::Overlay, q)),
                        None => None,
                    },
                },
            },
        },
    }
}

fn constraint_at(src: &Source, p: usize) -> (r: Option<(OutputSectionConstraint, usize)>)
    requires
        src.wf(),
        p <= src@.len(),
    ensures
        match r {
            Some((t, q)) => spec_constraint(src@, p as int) == Some((t, q as int)) && q <= src@.len(),
            None => spec_constraint(src@, p as int) is None,
        },
{
    match src.tag(p, "ONLY_IF_RO") {
        Some(q) => Some((OutputSectionConstraint::OnlyIfRo, q)),
        None => match src.tag(p, "ONLY_IF_RW") {
            Some(q) => Some((OutputSectionConstraint::OnlyIfRw, q)),
            None => None,
        },
    }
}

fn optional_expression(src: &Source, p: usize) -> (r: Result<(Option<Box<Expression>>, usize), ParseError>)
    requires
        src.wf(),
        p <= src@.len(),
    ensures
        agrees(r, spec_optional_expression(src@, p as int)),
        r matches Ok((_, q)) ==> p <= q <= src@.len(),
{
    match expression_at(src, p) {
        Ok((e, q)) => Ok((Some(Box::new(e)), q)),
        Err(ParseError::Mismatch) => Ok((None, p)),
        Err(e) => Err(e),
    }
}

fn keyword_call(src: &Source, p: usize, kw: &str) -> (r: Result<(Option<Box<Expression>>, usize), ParseError>)
    requires
        src.wf(),
        p <= src@.len(),
    ensures
        agrees(r, spec_keyword_call(src@, p as int, kw@)),
        r matches Ok((_, q)) ==> p <= q <= src@.len(),
{
    let q = match src.tag(p, kw) {
        Some(q) => q,
        None => {
            return Ok((None, p));
        },
    };
    let q1 = skip(src, q);
    match expression_at(src, q1) {
        Ok((e, r)) => {
            let t = skip(src, r);
            if src.is(t, ')') {
                Ok((Some(Box::new(e)), t + 1))
            } else {
                Ok((None, p))
            }
        },
        Err(ParseError::Mismatch) => Ok((None, p)),
        Err(e) => Err(e),
    }
}

fn region_ref(src: &Source, p: usize, kw: &str) -> (r: Result<(Option<String>, usize), ParseError>)
    requires
        src.wf(),
        p <= src@.len(),
    ensures
        agrees(r, spec_region_ref(src@, p as int, kw@)),
        r matches Ok((_, q)) ==> p <= q <= src@.len(),
{
    let q = match src.tag(p, kw) {
        Some(q) => q,
        None => {
            return Ok((None, p));
        },
    };
    let q1 = skip(src, q);
    match symbol_span(src, q1) {
        Ok(((a, b), r)) => {
            let t = skip(src, r);
            Ok((Some(src.slice(a, b)), t))
        },
        Err(ParseError::Mismatch) => Ok((None, p)),
        Err(e) => Err(e),
    }
}

fn fill_expression(src: &Source, p: usize) -> (r: Result<(Option<Box<Expression>>, usize), ParseError>)
    requires
        src.wf(),
        p <= src@.len(),
    ensures
        agrees(r, spec_fill_expression(src@, p as int)),
        r matches Ok((_, q)) ==> p <= q <= src@.len(),
{
    if !src.is(p, '=') {
        return Ok((None, p));
    }
    let q = skip(src, p + 1);
    match expression_at(src, q) {
        Ok((e, r)) => {
            let t = skip(src, r);
            Ok((Some(Box::new(e)), t))
        },
        Err(ParseError::Mismatch) => Ok((None, p)),
        Err(e) => Err(e),
    }
}

fn section_name(src: &Source, p: usize) -> (r: Result<(String, usize), ParseError>)
    requires
        src.wf(),
        p <= src@.len(),
    ensures
        agrees(r, spec_section_name(src@, p as int)),
        r matches Ok((_, q)) ==> p <= q <= src@.len(),
        r matches Ok((_, q)) ==> p < q || spec_tag(src@, p as int, "/DISCARD/"@) is Some,
{
    match src.tag(p, "/DISCARD/") {
        Some(q) => Ok((src.slice(p, q), q)),
        None => match symbol_span(src, p) {
            Ok(((a, b), q)) => Ok((src.slice(a, b), q)),
            Err(e) => Err(e),
        },
    }
}

fn section_head(src: &Source, p: usize) -> (r: Result<
    ((String, Option<Box<Expression>>, Option<OutputSectionType>), usize),
    ParseError,
>)
    requires
        src.wf(),
        p <= src@.len(),
    ensures
        agrees(r, spec_section_head(src@, p as int)),
        advances(r, p as int, src@.len() as int),
{
    let (name, q) = match section_name(src, p) {
        Ok(x) => x,
        Err(e) => {
            return Err(e);
        },
    };
    let q1 = skip(src, q);
    let type1 = section_type_at(src, q1);
    let q2 = match type1 {
        Some((_, x)) => x,
        None => q1,
    };
    let q3 = skip(src, q2);
    let (vma_address, x) = match optional_expression(src, q3) {
        Ok(v) => v,
        Err(e) => {
            return Err(e);
        },
    };
    let q4 = skip(src, x);
    let type2 = section_type_at(src, q4);
    let q5 = match type2 {
        Some((_, y)) => y,
        None => q4,
    };
    let s_type = match type1 {
        Some((t, _)) => Some(t),
        None => match type2 {
            Some((t, _)) => Some(t),
            None => None,
        },
    };
    match ws_char_at(src, q5, ':') {
        Some(q6) => Ok(((name, vma_address, s_type), q6)),
        None => Err(ParseError::Mismatch),
    }
}

fn section_attributes(src: &Source, p: usize) -> (r: Result<
    (
        (
            Option<Box<Expression>>,
            Option<Box<Expression>>,
            bool,
            Option<Box<Expression>>,
            Option<OutputSectionConstraint>,
        ),
        usize,
    ),
    ParseError,
>)
    requires
        src.wf(),
        p <= src@.len(),
    ensures
        agrees(r, spec_section_attributes(src@, p as int)),
        advances(r, p as int, src@.len() as int),
{
    let (lma_address, y) = match keyword_call(src, p, "AT(") {
        Ok(v) => v,
        Err(e) => {
            return Err(e);
        },
    };
    let y1 = skip(src, y);
    let (section_align, z) = match keyword_call(src, y1, "ALIGN(") {
        Ok(v) => v,
        Err(e) => {
            return Err(e);
        },
    };
    let a = skip(src, z);
    let with_input = src.tag(a, "ALIGN_WITH_INPUT");
    let b = match with_input {
        Some(w) => w,
        None => a,
    };
    let b1 = skip(src, b);
    let (subsection_align, c) = match keyword_call(src, b1, "SUBALIGN(") {
        Ok(v) => v,
        Err(e) => {
            return Err(e);
        },
    };
    let d = skip(src, c);
    let constraint_found = constraint_at(src, d);
    let d1 = match constraint_found {
        Some((_, w)) => w,
        None => d,
    };
    let d2 = skip(src, d1);
    let f = match ws_char_at(src, d2, '{') {
        Some(f) => f,
        None => {
            return Err(ParseError::Mismatch);
        },
    };
    let constraint = match constraint_found {
        Some((t, _)) => Some(t),
        None => None,
    };
    Ok(((lma_address, section_align, with_input.is_some(), subsection_align, constraint), f))
}

fn section_tail(src: &Source, p: usize) -> (r: Result<
    ((Option<String>, Option<String>, Option<Box<Expression>>), usize),
    ParseError,
>)
    requires
        src.wf(),
        p <= src@.len(),
    ensures
        agrees(r, spec_section_tail(src@, p as int)),
        r matches Ok((_, q)) ==> p <= q <= src@.len(),
{
    let (region, i) = match region_ref(src, p, ">") {
        Ok(v) => v,
        Err(e) => {
            return Err(e);
        },
    };
    let (lma_region, j) = match region_ref(src, i, "AT>") {
        Ok(v) => v,
        Err(e) => {
            return Err(e);
        },
    };
    let (fillexp, k) = match fill_expression(src, j) {
        Ok(v) => v,
        Err(e) => {
            return Err(e);
        },
    };
    let end = if src.is(k, ',') {
        k + 1
    } else {
        k
    };
    Ok(((region, lma_region, fillexp), end))
}

fn output_section(src: &Source, p: usize) -> (r: Result<(SectionCommand, usize), ParseError>)
    requires
        src.wf(),
        p <= src@.len(),
    ensures
        agrees(r, spec_output_section(src@, p as int)),
        advances(r, p as int, src@.len() as int),
{
    let ((name, vma_address, s_type), q) = match section_head(src, p) {
        Ok(x) => x,
        Err(e) => {
            return Err(e);
        },
    };
    let ((lma_address, section_align, align_with_input, subsection_align, constraint), f) =
        match section_attributes(src, q) {
        Ok(x) => x,
        Err(e) => {
            return Err(e);
        },
    };
    let (content, g) = match output_commands(src, f) {
        Ok(v) => v,
        Err(e) => {
            return Err(e);
        },
    };
    let h = match ws_char_at(src, g, '}') {
        Some(h) => h,
        None => {
            return Err(ParseError::Mismatch);
        },
    };
    let ((region, lma_region, fillexp), k) = match section_tail(src, h) {
        Ok(x) => x,
        Err(e) => {
            return Err(e);
        },
    };
    Ok(
        (
            SectionCommand::OutputSection {
                name,
                vma_address,
                s_type,
                lma_address,
                section_align,
                align_with_input,
                subsection_align,
                constraint,
                content,
                region,
                lma_region,
                fillexp,
            },
            k,
        ),
    )
}

pub(crate) fn section_command_at(src: &Source, p: usize) -> (r: Result<(SectionCommand, usize), ParseError>)
    requires
        src.wf(),
        p <= src@.len(),
    ensures
        agrees(r, spec_section_command(src@, p as int)),
        advances(r, p as int, src@.len() as int),
{
    match statement_at(src, p) {
        Ok((st, q)) => {
            return Ok((SectionCommand::Statement(st), q));
        },
        Err(ParseError::Fatal) => {
            return Err(ParseError::Fatal);
        },
        Err(ParseError::Mismatch) => {},
    }
    match output_section(src, p) {
        Err(ParseError::Mismatch) => {},
        r => {
            return r;
        },
    }
    match command_at(src, p) {
        Ok((c, q)) => Ok((SectionCommand::Command(c), q)),
        Err(e) => Err(e),
    }
}

/// Parses an output-section declaration at the start of `input`.
pub fn output_sc(input: &str) -> (r: Result<(&str, SectionCommand), ParseError>)
    ensures
        outcome(r, input@, spec_output_section(input@, 0)),
{
    let src = Source::new(input);
    let r = output_section(&src, 0);
    finish(&src, r)
}

/// Parses a command of a `SECTIONS` body at the start of `input`.
pub fn section_command(input: &str) -> (r: Result<(&str, SectionCommand), ParseError>)
    ensures
        outcome(r, input@, spec_section_command(input@, 0)),
{
    let src = Source::new(input);
    let r = section_command_at(&src, 0);
    finish(&src, r)
}

} // verus!
