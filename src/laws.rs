//! Properties of the grammar as a whole.
use vstd::prelude::*;

use crate::script::{spec_root_item, spec_root_items, spec_script, SpecRootItem};
use crate::text::ParseError;
use crate::whitespace::{skip_ws, spec_space_or_comment};

verus! {

/// Skipping blanks and comments a second time skips nothing more.
pub proof fn lemma_skip_ws_idempotent(s: Seq<char>, p: int)
    ensures
        skip_ws(s, skip_ws(s, p)) == skip_ws(s, p),
    decreases s.len() - p,
{
    if let Some(q) = spec_space_or_comment(s, p) {
        if p < q <= s.len() {
            lemma_skip_ws_idempotent(s, q);
        }
    }
}

/// Where the loop over root items stops: no root item can be read after the
/// blanks and comments there, and once an item was read, those blanks and
/// comments were read with it.
proof fn lemma_root_items_stop(s: Seq<char>, p: int, acc: Seq<SpecRootItem>)
    requires
        0 <= p <= s.len(),
    ensures
        spec_root_items(s, p, acc) is Err ==> spec_root_items(s, p, acc) == Err::<
            (Seq<SpecRootItem>, int),
            ParseError,
        >(ParseError::Fatal),
        spec_root_items(s, p, acc) matches Ok((items, q)) ==> {
            &&& spec_root_item(s, skip_ws(s, q)) is Err
            &&& items.len() >= acc.len()
            &&& items.len() == acc.len() ==> q == p
            &&& items.len() != acc.len() ==> skip_ws(s, q) == q
        },
    decreases s.len() - p,
{
    if let Ok((x, q0)) = spec_root_item(s, skip_ws(s, p)) {
        let r = skip_ws(s, q0);
        if p < r <= s.len() {
            lemma_root_items_stop(s, r, acc.push(x));
            lemma_skip_ws_idempotent(s, q0);
        }
    }
}

/// Full consumption. Where the root items of a script stop, no blank or
/// comment is left unread and no root item can be read. `parse` accepts a
/// script only when that position is the end of the text, so it rejects a
/// script exactly when a fragment that starts no root item remains after the
/// last item it could read, however much came before; and blanks or comments
/// at the end of a script never cause a rejection.
pub proof fn law_full_consumption(s: Seq<char>)
    ensures
        spec_script(s) matches Ok((_, q)) ==> skip_ws(s, q) == q && spec_root_item(s, q) is Err,
{
    lemma_root_items_stop(s, 0, Seq::empty());
    lemma_skip_ws_idempotent(s, 0);
}

} // verus!
