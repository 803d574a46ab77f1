//! The content-block rule. Chosen layout policy, a peer of the
//! delimited-list rule and deliberately the same shared rule: a block whose
//! single-line rendering fits the width budget stays on one line; otherwise
//! each inner child stands on its own line one indent level deeper, with
//! the closing bracket on a line of its own at the enclosing depth.
//! Children are never reordered; only whitespace and indentation change.

use vstd::prelude::*;

use crate::args::format_delimited;
use crate::args::spec_delimited;
use crate::args::views_of;
use crate::context::Ctx;
use crate::node::Node;

verus! {

/// Formats a bracketed content block through the shared delimited-list
/// rule.
pub fn format_content_blocks(node: &Node, children: &Vec<Vec<char>>, ctx: &mut Ctx) -> (res: Vec<
    char,
>)
    requires
        children@.len() == node.children@.len(),
        old(ctx).indent < usize::MAX,
    ensures
        res@ == spec_delimited(*node, views_of(*children), old(ctx).config, old(ctx).indent as nat),
        *final(ctx) == *old(ctx),
{
    format_delimited(node, children, ctx)
}

} // verus!
