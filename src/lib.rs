//! Parser for linker-control scripts: the text that tells a linker how to lay
//! out memory, compose output sections and assign symbols, turned into a
//! syntax tree.
//!
//! Every grammar rule is stated as a function over the characters of the text
//! (the `spec_*` functions of each module), and each executable rule is proved
//! to compute exactly that function.
use vstd::prelude::*;
use vstd::string::StringExecFns;

pub mod text;
pub mod whitespace;
pub mod numbers;
pub mod idents;
pub mod expressions;
pub mod eval;
pub mod statements;
pub mod memory;
pub mod commands;
pub mod sections;
pub mod script;
pub mod laws;

pub use commands::Command;
pub use commands::InsertOrder;
pub use expressions::BinaryOperator;
pub use expressions::Expression;
pub use expressions::UnaryOperator;
pub use memory::Region;
pub use script::RootItem;
pub use sections::DataType;
pub use sections::OutputSectionCommand;
pub use sections::OutputSectionConstraint;
pub use sections::OutputSectionType;
pub use sections::SectionCommand;
pub use sections::SectionPattern;
pub use statements::AssignOperator;
pub use statements::Statement;
pub use text::ParseError;

use script::{script_at, spec_script};
use text::Source;

verus! {

/// Parses the text of a linker script. It succeeds only when the root items,
/// with the blanks and comments around them, take up the whole text; an empty
/// text, or one of blanks and comments only, gives no items.
pub fn parse(ldscript: &str) -> (r: Result<Vec<RootItem>, String>)
    ensures
        match spec_script(ldscript@) {
            Ok((items, q)) => if q == ldscript@.len() {
                r matches Ok(v) && v.deep_view() == items
            } else {
                r matches Err(m) && m@ == "Parsing failed, unparsed text: "@ + ldscript@.subrange(
                    q,
                    ldscript@.len() as int,
                )
            },
            Err(_) => r is Err,
        },
{
    let src = Source::new(ldscript);
    match script_at(&src) {
        Ok((items, q)) => if q == src.len() {
            Ok(items)
        } else {
            Err(String::from_str("Parsing failed, unparsed text: ").concat(src.rest(q)))
        },
        Err(_) => Err(String::from_str("Parsing failed")),
    }
}

} // verus!
