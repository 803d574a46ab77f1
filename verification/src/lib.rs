//! A canonicalizing source formatter for a markup language with embedded
//! code. The external parser's concrete syntax tree is consumed through
//! the node abstraction of `node`; formatting is bottom-up, and for each
//! node a rule keyed on its kind decides how whitespace is inserted,
//! preserved or discarded under a configurable line-width budget.

use vstd::prelude::*;

mod args;
mod code_blocks;
mod config;
mod content_blocks;
mod context;
mod laws;
mod node;
mod utils;

pub use crate::args::format_args;
pub use crate::code_blocks::format_code_blocks;
pub use crate::config::Config;
pub use crate::content_blocks::format_content_blocks;
pub use crate::context::Ctx;
pub use crate::context::Warning;
pub use crate::node::Kind;
pub use crate::node::Node;

use crate::args::spec_delimited;
use crate::args::views_of;
use crate::context::indent_lines;
use crate::context::indent_prefix;
use crate::context::norm_step;
use crate::context::push_norm;
use crate::context::collapse;
use crate::node::is_bin_op;
use crate::utils::max_line_len;
use crate::utils::max_line_length;

verus! {

broadcast use vstd::seq::axiom_seq_index_decreases, vstd::seq::axiom_seq_subrange_decreases, vstd::std_specs::vec::axiom_vec_decreases_to_view;

/// Concatenation of every leaf's raw text, in tree order: the content the
/// formatter must preserve up to whitespace.
pub open spec fn flat_text(node: Node) -> Seq<char>
    decreases node,
{
    if node.children@.len() == 0 {
        node.text@
    } else {
        flat_cat(node.children@)
    }
}

/// Concatenation of `flat_text` over a sequence of nodes.
pub open spec fn flat_cat(nodes: Seq<Node>) -> Seq<char>
    decreases nodes,
{
    if nodes.len() == 0 {
        Seq::empty()
    } else {
        flat_cat(nodes.drop_last()) + flat_text(nodes.last())
    }
}

/// One child's contribution under the default rule: every
/// already-formatted child goes in unmodified.
pub open spec fn default_upto(node: Node, cs: Seq<Seq<char>>, i: int) -> Seq<char>
    decreases i,
{
    if i <= 0 {
        collapse(node.text@)
    } else {
        default_upto(node, cs, i - 1) + cs[i - 1]
    }
}

/// The default rule: the node's own raw text, normalized, then each
/// child's rendering verbatim in order.
pub open spec fn spec_default(node: Node, cs: Seq<Seq<char>>) -> Seq<char> {
    default_upto(node, cs, node.children@.len() as int)
}

/// One child's contribution to the tight binary layout: whitespace trivia
/// is discarded, an operator token gets exactly one space on each side,
/// and everything else goes in verbatim.
pub open spec fn bin_tight_step(buf: Seq<char>, k: Kind, s: Seq<char>) -> Seq<char> {
    if k == Kind::Space {
        buf
    } else if is_bin_op(k) {
        norm_step(norm_step(buf, ' ') + s, ' ')
    } else {
        buf + s
    }
}

/// The tight binary layout over the first `i` children.
pub open spec fn bin_tight_upto(node: Node, cs: Seq<Seq<char>>, i: int) -> Seq<char>
    decreases i,
{
    if i <= 0 {
        Seq::empty()
    } else {
        bin_tight_step(bin_tight_upto(node, cs, i - 1), node.children@[i - 1].kind, cs[i - 1])
    }
}

/// The tight, single-line-biased layout of a binary-operator chain.
pub open spec fn spec_bin_tight(node: Node, cs: Seq<Seq<char>>) -> Seq<char> {
    bin_tight_upto(node, cs, node.children@.len() as int)
}

/// One child's contribution to the reserved breaking binary layout: a
/// newline before each operator, the operator indented, one space after
/// it.
pub open spec fn bin_breaking_step(buf: Seq<char>, k: Kind, s: Seq<char>, p: Seq<char>) -> Seq<
    char,
> {
    if k == Kind::Space {
        buf
    } else if is_bin_op(k) {
        norm_step(buf, '\n') + indent_lines(s, p) + seq![' ']
    } else {
        buf + s
    }
}

/// The breaking binary layout over the first `i` children.
pub open spec fn bin_breaking_upto(node: Node, cs: Seq<Seq<char>>, p: Seq<char>, i: int) -> Seq<
    char,
>
    decreases i,
{
    if i <= 0 {
        Seq::empty()
    } else {
        bin_breaking_step(
            bin_breaking_upto(node, cs, p, i - 1),
            node.children@[i - 1].kind,
            cs[i - 1],
            p,
        )
    }
}

/// The reserved breaking layout of a binary-operator chain.
pub open spec fn spec_bin_breaking(node: Node, cs: Seq<Seq<char>>, cfg: Config, depth: nat) -> Seq<
    char,
> {
    bin_breaking_upto(node, cs, indent_prefix(cfg, depth), node.children@.len() as int)
}

/// The diagnostics the binary rule emits: exactly one warning when the
/// tight rendering's longest line exceeds the width budget, none
/// otherwise.
pub open spec fn bin_warns(node: Node, cs: Seq<Seq<char>>, cfg: Config) -> Seq<Warning> {
    if max_line_len(spec_bin_tight(node, cs)) > cfg.max_line_length {
        seq![Warning::BinaryBreakingUnsupported]
    } else {
        Seq::empty()
    }
}

/// One child's contribution under the named-argument rule: whitespace
/// trivia is discarded, the separator renders as a colon followed by
/// exactly one space, everything else goes in verbatim.
pub open spec fn named_step(buf: Seq<char>, k: Kind, s: Seq<char>) -> Seq<char> {
    if k == Kind::Space {
        buf
    } else if k == Kind::Colon {
        buf + seq![':', ' ']
    } else {
        buf + s
    }
}

/// The named-argument layout over the first `i` children.
pub open spec fn named_upto(node: Node, cs: Seq<Seq<char>>, i: int) -> Seq<char>
    decreases i,
{
    if i <= 0 {
        Seq::empty()
    } else {
        named_step(named_upto(node, cs, i - 1), node.children@[i - 1].kind, cs[i - 1])
    }
}

/// The layout of a named argument or keyed entry.
pub open spec fn spec_named(node: Node, cs: Seq<Seq<char>>) -> Seq<char> {
    named_upto(node, cs, node.children@.len() as int)
}

/// One child's contribution under the let-binding rule: the binding token
/// gets exactly one space on each side, whitespace trivia is kept (through
/// the normalizing primitive), everything else goes in verbatim.
pub open spec fn let_step(buf: Seq<char>, k: Kind, s: Seq<char>) -> Seq<char> {
    if k == Kind::Eq {
        norm_step(push_norm(norm_step(buf, ' '), s), ' ')
    } else if k == Kind::Space {
        push_norm(buf, s)
    } else {
        buf + s
    }
}

/// The let-binding layout over the first `i` children.
pub open spec fn let_upto(node: Node, cs: Seq<Seq<char>>, i: int) -> Seq<char>
    decreases i,
{
    if i <= 0 {
        Seq::empty()
    } else {
        let_step(let_upto(node, cs, i - 1), node.children@[i - 1].kind, cs[i - 1])
    }
}

/// The layout of a let binding.
pub open spec fn spec_let(node: Node, cs: Seq<Seq<char>>) -> Seq<char> {
    let_upto(node, cs, node.children@.len() as int)
}

/// The dispatch: which rule renders a node of this kind, given its
/// already-rendered children.
pub open spec fn spec_fmt(node: Node, cs: Seq<Seq<char>>, cfg: Config, depth: nat) -> Seq<char> {
    if node.kind == Kind::Binary {
        spec_bin_tight(node, cs)
    } else if node.kind == Kind::Named || node.kind == Kind::Keyed {
        spec_named(node, cs)
    } else if node.kind == Kind::CodeBlock || node.kind == Kind::ContentBlock || node.kind
        == Kind::Args || node.kind == Kind::Params || node.kind == Kind::Dict || node.kind
        == Kind::Array || node.kind == Kind::Destructuring || node.kind == Kind::Parenthesized {
        spec_delimited(node, cs, cfg, depth)
    } else if node.kind == Kind::LetBinding {
        spec_let(node, cs)
    } else {
        spec_default(node, cs)
    }
}

/// What one whole visit renders: children bottom-up, then the parent's
/// rule over their renderings.
pub open spec fn spec_visit(node: Node, cfg: Config, depth: nat) -> Seq<char>
    decreases node,
{
    spec_fmt(node, child_strs(node.children@, cfg, depth), cfg, depth)
}

/// The renderings of a sequence of nodes, in order.
pub open spec fn child_strs(nodes: Seq<Node>, cfg: Config, depth: nat) -> Seq<Seq<char>>
    decreases nodes,
{
    if nodes.len() == 0 {
        Seq::empty()
    } else {
        child_strs(nodes.drop_last(), cfg, depth).push(spec_visit(nodes.last(), cfg, depth))
    }
}

/// The diagnostics one whole visit emits: the children's, in visit order,
/// then the node's own.
pub open spec fn spec_warns(node: Node, cfg: Config, depth: nat) -> Seq<Warning>
    decreases node,
{
    warns_cat(node.children@, cfg, depth) + (if node.kind == Kind::Binary {
        bin_warns(node, child_strs(node.children@, cfg, depth), cfg)
    } else {
        Seq::empty()
    })
}

/// Concatenation of `spec_warns` over a sequence of nodes.
pub open spec fn warns_cat(nodes: Seq<Node>, cfg: Config, depth: nat) -> Seq<Warning>
    decreases nodes,
{
    if nodes.len() == 0 {
        Seq::empty()
    } else {
        warns_cat(nodes.drop_last(), cfg, depth) + spec_warns(nodes.last(), cfg, depth)
    }
}

/// `child_strs` is the element-wise rendering.
pub proof fn lemma_child_strs_index(nodes: Seq<Node>, cfg: Config, depth: nat)
    ensures
        child_strs(nodes, cfg, depth).len() == nodes.len(),
        forall|j: int|
            0 <= j < nodes.len() ==> child_strs(nodes, cfg, depth)[j] == spec_visit(
                nodes[j],
                cfg,
                depth,
            ),
    decreases nodes.len(),
{
    if nodes.len() > 0 {
        lemma_child_strs_index(nodes.drop_last(), cfg, depth);
    }
}

/// `warns_cat` over one more node.
pub proof fn lemma_warns_cat_snoc(nodes: Seq<Node>, cfg: Config, depth: nat, i: int)
    requires
        0 <= i < nodes.len(),
    ensures
        warns_cat(nodes.take(i + 1), cfg, depth) == warns_cat(nodes.take(i), cfg, depth)
            + spec_warns(nodes[i], cfg, depth),
{
    assert(nodes.take(i + 1).drop_last() =~= nodes.take(i));
    assert(nodes.take(i + 1).last() == nodes[i]);
}

/// Formats a node for which no bespoke rule exists: the node's own raw
/// text, normalized (no two consecutive spaces, no more than two
/// consecutive newlines), then every already-formatted child unchanged,
/// in order.
pub fn format_default(node: &Node, children: &Vec<Vec<char>>, ctx: &mut Ctx) -> (res: Vec<char>)
    requires
        children@.len() == node.children@.len(),
    ensures
        res@ == spec_default(*node, views_of(*children)),
        *final(ctx) == *old(ctx),
{
    let ghost cs = views_of(*children);
    let mut res: Vec<char> = Vec::new();
    ctx.push_in(&node.text, &mut res);
    proof {
        assert(res@ =~= default_upto(*node, cs, 0));
    }
    let mut i: usize = 0;
    while i < children.len()
        invariant
            children@.len() == node.children@.len(),
            i <= children@.len(),
            cs == views_of(*children),
            res@ == default_upto(*node, cs, i as int),
            *ctx == *old(ctx),
        decreases children@.len() - i,
    {
        ctx.push_raw_in(&children[i], &mut res);
        i += 1;
    }
    res
}

/// Formats a left-associative binary-operator chain: always the tight
/// layout; when its longest line exceeds the width budget, exactly one
/// warning is recorded that the breaking layout is not supported for this
/// grammar, and the tight rendering is returned unchanged. The breaking
/// layout itself is computed only by the reserved
/// `format_bin_left_assoc_breaking`, which this rule deliberately does not
/// call yet.
pub fn format_bin_left_assoc(parent: &Node, children: &Vec<Vec<char>>, ctx: &mut Ctx) -> (res: Vec<
    char,
>)
    requires
        children@.len() == parent.children@.len(),
    ensures
        res@ == spec_bin_tight(*parent, views_of(*children)),
        final(ctx).config == old(ctx).config,
        final(ctx).indent == old(ctx).indent,
        final(ctx).warnings@ == old(ctx).warnings@ + bin_warns(
            *parent,
            views_of(*children),
            old(ctx).config,
        ),
{
    let res = format_bin_left_assoc_tight(parent, children, ctx);
    let w = max_line_length(&res);
    if w > ctx.config.max_line_length {
        ctx.warnings.push(Warning::BinaryBreakingUnsupported);
    } else {
        proof {
            assert(old(ctx).warnings@ + Seq::<Warning>::empty() =~= old(ctx).warnings@);
        }
    }
    res
}

/// The reserved breaking layout for a binary-operator chain: a newline
/// before each operator token, the operator indented at the current
/// depth, one space after it. Kept as an inspectable, currently unused
/// mode.
pub fn format_bin_left_assoc_breaking(parent: &Node, children: &Vec<Vec<char>>, ctx: &mut Ctx) -> (res:
    Vec<char>)
    requires
        children@.len() == parent.children@.len(),
    ensures
        res@ == spec_bin_breaking(
            *parent,
            views_of(*children),
            old(ctx).config,
            old(ctx).indent as nat,
        ),
        *final(ctx) == *old(ctx),
{
    let ghost cs = views_of(*children);
    let ghost p = indent_prefix(old(ctx).config, old(ctx).indent as nat);
    let mut res: Vec<char> = Vec::new();
    proof {
        assert(res@ =~= bin_breaking_upto(*parent, cs, p, 0));
    }
    let mut i: usize = 0;
    while i < children.len()
        invariant
            children@.len() == parent.children@.len(),
            i <= children@.len(),
            cs == views_of(*children),
            p == indent_prefix(ctx.config, ctx.indent as nat),
            res@ == bin_breaking_upto(*parent, cs, p, i as int),
            *ctx == *old(ctx),
        decreases children@.len() - i,
    {
        match parent.children[i].kind {
            Kind::Op | Kind::Eq => {
                ctx.push_in_char('\n', &mut res);
                ctx.push_raw_indent(&children[i], &mut res);
                res.push(' ');
            },
            Kind::Space => {},
            _ => {
                ctx.push_raw_in(&children[i], &mut res);
            },
        }
        i += 1;
    }
    res
}

/// The tight layout for a binary-operator chain: whitespace trivia
/// discarded, exactly one space inserted on each side of each operator
/// token, every other child verbatim in order.
pub fn format_bin_left_assoc_tight(parent: &Node, children: &Vec<Vec<char>>, ctx: &mut Ctx) -> (res:
    Vec<char>)
    requires
        children@.len() == parent.children@.len(),
    ensures
        res@ == spec_bin_tight(*parent, views_of(*children)),
        *final(ctx) == *old(ctx),
{
    let ghost cs = views_of(*children);
    let mut res: Vec<char> = Vec::new();
    proof {
        assert(res@ =~= bin_tight_upto(*parent, cs, 0));
    }
    let mut i: usize = 0;
    while i < children.len()
        invariant
            children@.len() == parent.children@.len(),
            i <= children@.len(),
            cs == views_of(*children),
            res@ == bin_tight_upto(*parent, cs, i as int),
            *ctx == *old(ctx),
        decreases children@.len() - i,
    {
        match parent.children[i].kind {
            Kind::Op | Kind::Eq => {
                ctx.push_in_char(' ', &mut res);
                ctx.push_raw_in(&children[i], &mut res);
                ctx.push_in_char(' ', &mut res);
            },
            Kind::Space => {},
            _ => {
                ctx.push_raw_in(&children[i], &mut res);
            },
        }
        i += 1;
    }
    res
}

/// Formats a named argument or keyed entry: whitespace trivia discarded,
/// the separator rendered as a colon followed by exactly one space, every
/// other child verbatim in order.
pub fn format_named_args(parent: &Node, children: &Vec<Vec<char>>, ctx: &mut Ctx) -> (res: Vec<
    char,
>)
    requires
        children@.len() == parent.children@.len(),
    ensures
        res@ == spec_named(*parent, views_of(*children)),
        *final(ctx) == *old(ctx),
{
    let ghost cs = views_of(*children);
    let mut res: Vec<char> = Vec::new();
    proof {
        assert(res@ =~= named_upto(*parent, cs, 0));
    }
    let mut i: usize = 0;
    while i < children.len()
        invariant
            children@.len() == parent.children@.len(),
            i <= children@.len(),
            cs == views_of(*children),
            res@ == named_upto(*parent, cs, i as int),
            *ctx == *old(ctx),
        decreases children@.len() - i,
    {
        match parent.children[i].kind {
            Kind::Colon => {
                res.push(':');
                res.push(' ');
                proof {
                    assert(res@ =~= named_upto(*parent, cs, i as int) + seq![':', ' ']);
                }
            },
            Kind::Space => {},
            _ => {
                ctx.push_raw_in(&children[i], &mut res);
            },
        }
        i += 1;
    }
    res
}

/// Formats a let binding: the binding token surrounded by exactly one
/// space on each side; whitespace trivia is kept, through the normalizing
/// primitive, to retain source-intended structure around the binding;
/// every other child verbatim in order.
pub fn format_let_binding(parent: &Node, children: &Vec<Vec<char>>, ctx: &mut Ctx) -> (res: Vec<
    char,
>)
    requires
        children@.len() == parent.children@.len(),
    ensures
        res@ == spec_let(*parent, views_of(*children)),
        *final(ctx) == *old(ctx),
{
    let ghost cs = views_of(*children);
    let mut res: Vec<char> = Vec::new();
    proof {
        assert(res@ =~= let_upto(*parent, cs, 0));
    }
    let mut i: usize = 0;
    while i < children.len()
        invariant
            children@.len() == parent.children@.len(),
            i <= children@.len(),
            cs == views_of(*children),
            res@ == let_upto(*parent, cs, i as int),
            *ctx == *old(ctx),
        decreases children@.len() - i,
    {
        match parent.children[i].kind {
            Kind::Eq => {
                ctx.push_in_char(' ', &mut res);
                ctx.push_in(&children[i], &mut res);
                ctx.push_in_char(' ', &mut res);
            },
            Kind::Space => {
                ctx.push_in(&children[i], &mut res);
            },
            _ => {
                ctx.push_raw_in(&children[i], &mut res);
            },
        }
        i += 1;
    }
    res
}

/// Visits a node bottom-up: renders every child depth-first,
/// left-to-right, then dispatches on the node's kind to the matching
/// rule. Dispatch is total: a kind without a bespoke rule falls to the
/// default rule, so visiting never fails.
pub fn visit(node: &Node, ctx: &mut Ctx) -> (res: Vec<char>)
    requires
        old(ctx).indent < usize::MAX,
    ensures
        res@ == spec_visit(*node, old(ctx).config, old(ctx).indent as nat),
        final(ctx).config == old(ctx).config,
        final(ctx).indent == old(ctx).indent,
        final(ctx).warnings@ == old(ctx).warnings@ + spec_warns(
            *node,
            old(ctx).config,
            old(ctx).indent as nat,
        ),
    decreases *node,
{
    let ghost cfg = old(ctx).config;
    let ghost depth = old(ctx).indent as nat;
    let mut children_fmt: Vec<Vec<char>> = Vec::new();
    let mut i: usize = 0;
    while i < node.children.len()
        invariant
            i <= node.children@.len(),
            cfg == old(ctx).config,
            depth == old(ctx).indent as nat,
            ctx.config == old(ctx).config,
            ctx.indent == old(ctx).indent,
            old(ctx).indent < usize::MAX,
            children_fmt@.len() == i,
            forall|j: int|
                0 <= j < i ==> #[trigger] children_fmt@[j]@ == spec_visit(
                    node.children@[j],
                    cfg,
                    depth,
                ),
            ctx.warnings@ == old(ctx).warnings@ + warns_cat(
                node.children@.take(i as int),
                cfg,
                depth,
            ),
        decreases node.children@.len() - i,
    {
        let ghost prev_children = children_fmt@;
        let ghost prev_warns = ctx.warnings@;
        let child_fmt = visit(&node.children[i], ctx);
        children_fmt.push(child_fmt);
        proof {
            lemma_warns_cat_snoc(node.children@, cfg, depth, i as int);
            assert(ctx.warnings@ =~= old(ctx).warnings@ + warns_cat(
                node.children@.take(i + 1),
                cfg,
                depth,
            ));
            assert forall|j: int|
                0 <= j < i + 1 implies #[trigger] children_fmt@[j]@ == spec_visit(
                node.children@[j],
                cfg,
                depth,
            ) by {
                if j < i {
                    assert(children_fmt@[j] == prev_children[j]);
                }
            }
        }
        i += 1;
    }
    proof {
        assert(node.children@.take(node.children@.len() as int) =~= node.children@);
        lemma_child_strs_index(node.children@, cfg, depth);
        assert(views_of(children_fmt) =~= child_strs(node.children@, cfg, depth));
    }
    let res = match node.kind {
        Kind::Binary => format_bin_left_assoc(node, &children_fmt, ctx),
        Kind::Named | Kind::Keyed => format_named_args(node, &children_fmt, ctx),
        Kind::CodeBlock => crate::code_blocks::format_code_blocks(node, &children_fmt, ctx),
        Kind::ContentBlock => crate::content_blocks::format_content_blocks(
            node,
            &children_fmt,
            ctx,
        ),
        Kind::Args | Kind::Params | Kind::Dict | Kind::Array | Kind::Destructuring
            | Kind::Parenthesized => crate::args::format_args(node, &children_fmt, ctx),
        Kind::LetBinding => format_let_binding(node, &children_fmt, ctx),
        _ => format_default(node, &children_fmt, ctx),
    };
    proof {
        if node.kind != Kind::Binary {
            assert(ctx.warnings@ + Seq::<Warning>::empty() =~= ctx.warnings@);
        }
    }
    res
}

/// Relies on std's `String: FromIterator<char>`: collecting characters
/// yields the string of exactly those characters, in order.
#[verifier::external_body]
fn chars_to_string(v: &Vec<char>) -> (r: String)
    ensures
        r@ == v@,
{
    v.iter().collect()
}

/// Formats a whole tree and also hands back the diagnostics the rules
/// emitted, in order.
pub fn format_with_diagnostics(root: &Node, config: Config) -> (r: (String, Vec<Warning>))
    ensures
        r.0@ == spec_visit(*root, config, 0),
        r.1@ == spec_warns(*root, config, 0),
{
    let mut ctx = Ctx::from_config(config);
    let v = visit(root, &mut ctx);
    proof {
        assert(ctx.warnings@ =~= spec_warns(*root, config, 0));
    }
    (chars_to_string(&v), ctx.warnings)
}

/// The entry point: renders the tree the external parser produced, under
/// `config`. Formatting is total over any tree; diagnostics, if any, are
/// discarded here (see `format_with_diagnostics`).
pub fn format(root: &Node, config: Config) -> (res: String)
    ensures
        res@ == spec_visit(*root, config, 0),
{
    let (s, _warnings) = format_with_diagnostics(root, config);
    s
}

} // verus!
