//! The script as a whole: a sequence of root items.
use vstd::prelude::*;

use crate::commands::{command_at, spec_command, Command, SpecCommand};
use crate::expressions::{ws_char, ws_char_at};
use crate::memory::{region_at, spec_region, Region, SpecRegion};
use crate::sections::{section_command_at, spec_section_command, SectionCommand, SpecSectionCommand};
use crate::statements::{spec_statement, statement_at, statement_view, SpecStatement, Statement};
use crate::text::{advances, agrees, char_is, finish, outcome, spec_tag, ParseError, Source, SpecResult};
use crate::whitespace::{skip, skip_ws};

verus! {

/// An item at the top level of a script.
#[derive(Debug, PartialEq)]
pub enum RootItem {
    Statement(Statement),
    Command(Command),
    Memory { regions: Vec<Region> },
    Sections { list: Vec<SectionCommand> },
}

/// The mathematical value of a root item.
pub enum SpecRootItem {
    Statement(SpecStatement),
    Command(SpecCommand),
    Memory { regions: Seq<SpecRegion> },
    Sections { list: Seq<SpecSectionCommand> },
}

impl DeepView for RootItem {
    type V = SpecRootItem;

    open spec fn deep_view(&self) -> SpecRootItem {
        match self {
            RootItem::Statement(st) => SpecRootItem::Statement(statement_view(*st)),
            RootItem::Command(c) => SpecRootItem::Command(c.deep_view()),
            RootItem::Memory { regions } => SpecRootItem::Memory { regions: regions.deep_view() },
            RootItem::Sections { list } => SpecRootItem::Sections { list: list.deep_view() },
        }
    }
}

/// Zero or more regions, each with the blanks and comments around it, that
/// follow the regions `acc` at `p`.
pub open spec fn spec_regions(s: Seq<char>, p: int, acc: Seq<SpecRegion>) -> SpecResult<Seq<SpecRegion>>
    decreases s.len() - p,
{
    match spec_region(s, skip_ws(s, p)) {
        Err(ParseError::Mismatch) => Ok((acc, p)),
        Err(e) => Err(e),
        Ok((x, q)) => {
            let r = skip_ws(s, q);
            if !(p < r <= s.len()) {
                Err(ParseError::Fatal)
            } else {
                spec_regions(s, r, acc.push(x))
            }
        },
    }
}

/// Zero or more commands of a `SECTIONS` body, each with the blanks and
/// comments around it, that follow the commands `acc` at `p`.
pub open spec fn spec_section_commands(
    s: Seq<char>,
    p: int,
    acc: Seq<SpecSectionCommand>,
) -> SpecResult<Seq<SpecSectionCommand>>
    decreases s.len() - p,
{
    match spec_section_command(s, skip_ws(s, p)) {
        Err(ParseError::Mismatch) => Ok((acc, p)),
        Err(e) => Err(e),
        Ok((x, q)) => {
            let r = skip_ws(s, q);
            if !(p < r <= s.len()) {
                Err(ParseError::Fatal)
            } else {
                spec_section_commands(s, r, acc.push(x))
            }
        },
    }
}

/// `MEMORY { region+ }`
pub open spec fn spec_memory(s: Seq<char>, p: int) -> SpecResult<SpecRootItem> {
    match spec_tag(s, p, "MEMORY"@) {
        None => Err(ParseError::Mismatch),
        Some(q) => match ws_char(s, q, '{') {
            None => Err(ParseError::Mismatch),
            Some(r) => match spec_regions(s, r, Seq::empty()) {
                Err(e) => Err(e),
                Ok((regions, t)) => if regions.len() > 0 && char_is(s, t, '}') {
                    Ok((SpecRootItem::Memory { regions }, t + 1))
                } else {
                    Err(ParseError::Mismatch)
                },
            },
        },
    }
}

/// `SECTIONS { section-command+ }`
pub open spec fn spec_sections(s: Seq<char>, p: int) -> SpecResult<SpecRootItem> {
    match spec_tag(s, p, "SECTIONS"@) {
        None => Err(ParseError::Mismatch),
        Some(q) => match ws_char(s, q, '{') {
            None => Err(ParseError::Mismatch),
            Some(r) => match spec_section_commands(s, r, Seq::empty()) {
                Err(e) => Err(e),
                Ok((list, t)) => if list.len() > 0 && char_is(s, t, '}') {
                    Ok((SpecRootItem::Sections { list }, t + 1))
                } else {
                    Err(ParseError::Mismatch)
                },
            },
        },
    }
}

/// A root item: a statement, `MEMORY`, `SECTIONS`, else a command.
#[verifier::opaque]
pub open spec fn spec_root_item(s: Seq<char>, p: int) -> SpecResult<SpecRootItem> {
    match spec_statement(s, p) {
        Ok((st, q)) => Ok((SpecRootItem::Statement(st), q)),
        Err(ParseError::Fatal) => Err(ParseError::Fatal),
        Err(ParseError::Mismatch) => match spec_memory(s, p) {
            Err(ParseError::Mismatch) => match spec_sections(s, p) {
                Err(ParseError::Mismatch) => match spec_command(s, p) {
                    Err(e) => Err(e),
                    Ok((c, q)) => Ok((SpecRootItem::Command(c), q)),
                },
                r => r,
            },
            r => r,
        },
    }
}

/// Zero or more root items, each with the blanks and comments around it,
/// that follow the items `acc` at `p`.
pub open spec fn spec_root_items(s: Seq<char>, p: int, acc: Seq<SpecRootItem>) -> SpecResult<
    Seq<SpecRootItem>,
>
    decreases s.len() - p,
{
    match spec_root_item(s, skip_ws(s, p)) {
        Err(ParseError::Mismatch) => Ok((acc, p)),
        Err(e) => Err(e),
        Ok((x, q)) => {
            let r = skip_ws(s, q);
            if !(p < r <= s.len()) {
                Err(ParseError::Fatal)
            } else {
                spec_root_items(s, r, acc.push(x))
            }
        },
    }
}

/// A script: one or more root items, or else only blanks and comments (no
/// items). What the items leave unread is reported by the position.
pub open spec fn spec_script(s: Seq<char>) -> SpecResult<Seq<SpecRootItem>> {
    match spec_root_items(s, 0, Seq::empty()) {
        Err(ParseError::Fatal) => Err(ParseError::Fatal),
        Ok((items, q)) if items.len() > 0 => Ok((items, q)),
        _ => Ok((Seq::empty(), skip_ws(s, 0))),
    }
}

fn regions(src: &Source, p: usize) -> (r: Result<(Vec<Region>, usize), ParseError>)
    requires
        src.wf(),
        p <= src@.len(),
    ensures
        agrees(r, spec_regions(src@, p as int, Seq::empty())),
        r matches Ok((_, q)) ==> p <= q <= src@.len(),
{
    let ghost s = src@;
    let ghost g = spec_regions(s, p as int, Seq::empty());
    let mut v: Vec<Region> = Vec::new();
    assert(v.deep_view() =~= Seq::<SpecRegion>::empty());
    let mut pos = p;
    loop
        invariant
            src.wf(),
            s == src@,
            p <= pos <= s.len(),
            spec_regions(s, p as int, Seq::empty()) == g,
            spec_regions(s, pos as int, v.deep_view()) == g,
        decreases s.len() - pos,
    {
        let x = skip(src, pos);
        match region_at(src, x) {
            Ok((c, q)) => {
                let r = skip(src, q);
                let ghost before = v.deep_view();
                v.push(c);
                assert(v.deep_view() =~= before.push(c.deep_view()));
                pos = r;
            },
            Err(ParseError::Mismatch) => {
                return Ok((v, pos));
            },
            Err(e) => {
                return Err(e);
            },
        }
    }
}

fn section_commands(src: &Source, p: usize) -> (r: Result<(Vec<SectionCommand>, usize), ParseError>)
    requires
        src.wf(),
        p <= src@.len(),
    ensures
        agrees(r, spec_section_commands(src@, p as int, Seq::empty())),
        r matches Ok((_, q)) ==> p <= q <= src@.len(),
{
    let ghost s = src@;
    let ghost g = spec_section_commands(s, p as int, Seq::empty());
    let mut v: Vec<SectionCommand> = Vec::new();
    assert(v.deep_view() =~= Seq::<SpecSectionCommand>::empty());
    let mut pos = p;
    loop
        invariant
            src.wf(),
            s == src@,
            p <= pos <= s.len(),
            spec_section_commands(s, p as int, Seq::empty()) == g,
            spec_section_commands(s, pos as int, v.deep_view()) == g,
        decreases s.len() - pos,
    {
        let x = skip(src, pos);
        match section_command_at(src, x) {
            Ok((c, q)) => {
                let r = skip(src, q);
                let ghost before = v.deep_view();
                v.push(c);
                assert(v.deep_view() =~= before.push(c.deep_view()));
                pos = r;
            },
            Err(ParseError::Mismatch) => {
                return Ok((v, pos));
            },
            Err(e) => {
                return Err(e);
            },
        }
    }
}

fn memory_item(src: &Source, p: usize) -> (r: Result<(RootItem, usize), ParseError>)
    requires
        src.wf(),
        p <= src@.len(),
    ensures
        agrees(r, spec_memory(src@, p as int)),
        advances(r, p as int, src@.len() as int),
{
    let q = match src.tag(p, "MEMORY") {
        Some(q) => q,
        None => {
            return Err(ParseError::Mismatch);
        },
    };
    let r = match ws_char_at(src, q, '{') {
        Some(r) => r,
        None => {
            return Err(ParseError::Mismatch);
        },
    };
    let (list, t) = match regions(src, r) {
        Ok(x) => x,
        Err(e) => {
            return Err(e);
        },
    };
    if list.len() > 0 && src.is(t, '}') {
        Ok((RootItem::Memory { regions: list }, t + 1))
    } else {
        Err(ParseError::Mismatch)
    }
}

fn sections_item(src: &Source, p: usize) -> (r: Result<(RootItem, usize), ParseError>)
    requires
        src.wf(),
        p <= src@.len(),
    ensures
        agrees(r, spec_sections(src@, p as int)),
        advances(r, p as int, src@.len() as int),
{
    let q = match src.tag(p, "SECTIONS") {
        Some(q) => q,
        None => {
            return Err(ParseError::Mismatch);
        },
    };
    let r = match ws_char_at(src, q, '{') {
        Some(r) => r,
        None => {
            return Err(ParseError::Mismatch);
        },
    };
    let (list, t) = match section_commands(src, r) {
        Ok(x) => x,
        Err(e) => {
            return Err(e);
        },
    };
    if list.len() > 0 && src.is(t, '}') {
        Ok((RootItem::Sections { list }, t + 1))
    } else {
        Err(ParseError::Mismatch)
    }
}

fn root_item(src: &Source, p: usize) -> (r: Result<(RootItem, usize), ParseError>)
    requires
        src.wf(),
        p <= src@.len(),
    ensures
        agrees(r, spec_root_item(src@, p as int)),
        advances(r, p as int, src@.len() as int),
{
    proof {
        reveal(spec_root_item);
    }
    match statement_at(src, p) {
        Ok((st, q)) => {
            return Ok((RootItem::Statement(st), q));
        },
        Err(ParseError::Fatal) => {
            return Err(ParseError::Fatal);
        },
        Err(ParseError::Mismatch) => {},
    }
    match memory_item(src, p) {
        Err(ParseError::Mismatch) => {},
        r => {
            return r;
        },
    }
    match sections_item(src, p) {
        Err(ParseError::Mismatch) => {},
        r => {
            return r;
        },
    }
    match command_at(src, p) {
        Ok((c, q)) => Ok((RootItem::Command(c), q)),
        Err(e) => Err(e),
    }
}

fn root_items(src: &Source) -> (r: Result<(Vec<RootItem>, usize), ParseError>)
    requires
        src.wf(),
    ensures
        agrees(r, spec_root_items(src@, 0, Seq::empty())),
        r matches Ok((_, q)) ==> q <= src@.len(),
{
    let ghost s = src@;
    let ghost g = spec_root_items(s, 0, Seq::empty());
    let mut v: Vec<RootItem> = Vec::new();
    assert(v.deep_view() =~= Seq::<SpecRootItem>::empty());
    let mut pos: usize = 0;
    loop
        invariant
            src.wf(),
            s == src@,
            pos <= s.len(),
            spec_root_items(s, 0, Seq::empty()) == g,
            spec_root_items(s, pos as int, v.deep_view()) == g,
        decreases s.len() - pos,
    {
        let x = skip(src, pos);
        match root_item(src, x) {
            Ok((c, q)) => {
                let r = skip(src, q);
                let ghost before = v.deep_view();
                v.push(c);
                assert(v.deep_view() =~= before.push(c.deep_view()));
                pos = r;
            },
            Err(ParseError::Mismatch) => {
                return Ok((v, pos));
            },
            Err(e) => {
                return Err(e);
            },
        }
    }
}

pub(crate) fn script_at(src: &Source) -> (r: Result<(Vec<RootItem>, usize), ParseError>)
    requires
        src.wf(),
    ensures
        agrees(r, spec_script(src@)),
        r matches Ok((_, q)) ==> q <= src@.len(),
{
    match root_items(src) {
        Err(ParseError::Fatal) => Err(ParseError::Fatal),
        Ok((items, q)) if items.len() > 0 => Ok((items, q)),
        _ => {
            let v: Vec<RootItem> = Vec::new();
            assert(v.deep_view() =~= Seq::<SpecRootItem>::empty());
            Ok((v, skip(src, 0)))
        },
    }
}

/// Parses the root items of a script at the start of `input`; the text they
/// leave unread is handed back.
pub fn parse(input: &str) -> (r: Result<(&str, Vec<RootItem>), ParseError>)
    ensures
        outcome(r, input@, spec_script(input@)),
{
    let src = Source::new(input);
    let r = script_at(&src);
    finish(&src, r)
}

} // verus!
