//! The delimited-list rule, shared by argument lists, parameter lists,
//! dictionary and array literals, destructuring patterns and parenthesized
//! groups (and reused by the block rules): drop whitespace trivia, put no
//! space before a separator and exactly one after it, and lay the list out
//! on one line when that line fits the width budget (a line exactly as
//! long as the budget still fits), one item per line otherwise.

use vstd::prelude::*;

use crate::config::Config;
use crate::context::indent_lines;
use crate::context::indent_prefix;
use crate::context::Ctx;
use crate::node::is_close_delim;
use crate::node::is_open_delim;
use crate::node::Kind;
use crate::node::Node;
use crate::utils::max_line_len;
use crate::utils::max_line_length;

verus! {

/// One child's contribution to the single-line layout: whitespace trivia
/// is dropped, separators and closing delimiters attach directly, and any
/// other child gets one space after a separator that precedes it.
pub open spec fn delim_tight_step(buf: Seq<char>, k: Kind, s: Seq<char>) -> Seq<char> {
    if k == Kind::Space {
        buf
    } else if k == Kind::Comma || is_close_delim(k) {
        buf + s
    } else if buf.len() > 0 && buf.last() == ',' {
        buf.push(' ') + s
    } else {
        buf + s
    }
}

/// The single-line layout over the first `i` children.
pub open spec fn delim_tight_upto(node: Node, cs: Seq<Seq<char>>, i: int) -> Seq<char>
    decreases i,
{
    if i <= 0 {
        Seq::empty()
    } else {
        delim_tight_step(delim_tight_upto(node, cs, i - 1), node.children@[i - 1].kind, cs[i - 1])
    }
}

/// The single-line layout of a delimited list.
pub open spec fn spec_delim_tight(node: Node, cs: Seq<Seq<char>>) -> Seq<char> {
    delim_tight_upto(node, cs, node.children@.len() as int)
}

/// One child's contribution to the one-item-per-line layout: the opening
/// delimiter and the separators stay on the current line, the closing
/// delimiter gets a line of its own at the enclosing depth, and every
/// other child starts a fresh line one level deeper.
pub open spec fn delim_broken_step(
    buf: Seq<char>,
    k: Kind,
    s: Seq<char>,
    p0: Seq<char>,
    p1: Seq<char>,
) -> Seq<char> {
    if k == Kind::Space {
        buf
    } else if k == Kind::Comma || is_open_delim(k) {
        buf + s
    } else if is_close_delim(k) {
        buf + seq!['\n'] + p0 + s
    } else {
        buf + seq!['\n'] + indent_lines(s, p1)
    }
}

/// The one-item-per-line layout over the first `i` children.
pub open spec fn delim_broken_upto(
    node: Node,
    cs: Seq<Seq<char>>,
    cfg: Config,
    depth: nat,
    i: int,
) -> Seq<char>
    decreases i,
{
    if i <= 0 {
        Seq::empty()
    } else {
        delim_broken_step(
            delim_broken_upto(node, cs, cfg, depth, i - 1),
            node.children@[i - 1].kind,
            cs[i - 1],
            indent_prefix(cfg, depth),
            indent_prefix(cfg, depth + 1),
        )
    }
}

/// The one-item-per-line layout of a delimited list.
pub open spec fn spec_delim_broken(node: Node, cs: Seq<Seq<char>>, cfg: Config, depth: nat) -> Seq<
    char,
> {
    delim_broken_upto(node, cs, cfg, depth, node.children@.len() as int)
}

/// What the delimited-list rule renders: the single-line layout when its
/// longest line fits the budget (boundary inclusive), the one-item-per-line
/// layout otherwise.
pub open spec fn spec_delimited(node: Node, cs: Seq<Seq<char>>, cfg: Config, depth: nat) -> Seq<
    char,
> {
    let tight = spec_delim_tight(node, cs);
    if max_line_len(tight) <= cfg.max_line_length {
        tight
    } else {
        spec_delim_broken(node, cs, cfg, depth)
    }
}

/// The views of a list of already-rendered children.
pub open spec fn views_of(children: Vec<Vec<char>>) -> Seq<Seq<char>> {
    Seq::new(children@.len(), |i: int| children@[i]@)
}

/// The shared engine behind the six delimited forms and the two block
/// rules. Children must be positionally aligned with the node's syntax
/// children. Raises the indent depth only while rendering nested lines
/// and restores it on every exit path.
pub fn format_delimited(node: &Node, children: &Vec<Vec<char>>, ctx: &mut Ctx) -> (res: Vec<char>)
    requires
        children@.len() == node.children@.len(),
        old(ctx).indent < usize::MAX,
    ensures
        res@ == spec_delimited(*node, views_of(*children), old(ctx).config, old(ctx).indent as nat),
        *final(ctx) == *old(ctx),
{
    let ghost cs = views_of(*children);
    let ghost cfg = old(ctx).config;
    let ghost depth = old(ctx).indent as nat;
    let mut tight: Vec<char> = Vec::new();
    proof {
        assert(tight@ =~= delim_tight_upto(*node, cs, 0));
    }
    let mut i: usize = 0;
    while i < children.len()
        invariant
            children@.len() == node.children@.len(),
            i <= children@.len(),
            cs == views_of(*children),
            tight@ == delim_tight_upto(*node, cs, i as int),
            *ctx == *old(ctx),
        decreases children@.len() - i,
    {
        match node.children[i].kind {
            Kind::Space => {},
            Kind::Comma | Kind::RightParen | Kind::RightBrace | Kind::RightBracket => {
                ctx.push_raw_in(&children[i], &mut tight);
            },
            _ => {
                let n = tight.len();
                if n > 0 && tight[n - 1] == ',' {
                    tight.push(' ');
                }
                ctx.push_raw_in(&children[i], &mut tight);
            },
        }
        i += 1;
    }
    let w = max_line_length(&tight);
    if w <= ctx.config.max_line_length {
        return tight;
    }
    let mut res: Vec<char> = Vec::new();
    proof {
        assert(res@ =~= delim_broken_upto(*node, cs, cfg, depth, 0));
    }
    ctx.indent += 1;
    let mut i: usize = 0;
    while i < children.len()
        invariant
            children@.len() == node.children@.len(),
            i <= children@.len(),
            cs == views_of(*children),
            cfg == old(ctx).config,
            depth == old(ctx).indent as nat,
            old(ctx).indent < usize::MAX,
            ctx.indent == old(ctx).indent + 1,
            ctx.config == old(ctx).config,
            ctx.warnings == old(ctx).warnings,
            res@ == delim_broken_upto(*node, cs, cfg, depth, i as int),
        decreases children@.len() - i,
    {
        let ghost prev = res@;
        match node.children[i].kind {
            Kind::Space => {},
            Kind::Comma | Kind::LeftParen | Kind::LeftBrace | Kind::LeftBracket => {
                ctx.push_raw_in(&children[i], &mut res);
            },
            Kind::RightParen | Kind::RightBrace | Kind::RightBracket => {
                ctx.indent -= 1;
                res.push('\n');
                ctx.push_prefix(&mut res);
                ctx.push_raw_in(&children[i], &mut res);
                ctx.indent += 1;
                proof {
                    assert(res@ =~= prev + seq!['\n'] + indent_prefix(cfg, depth) + cs[i as int]);
                }
            },
            _ => {
                res.push('\n');
                ctx.push_raw_indent(&children[i], &mut res);
                proof {
                    assert(res@ =~= prev + seq!['\n'] + indent_lines(
                        cs[i as int],
                        indent_prefix(cfg, depth + 1),
                    ));
                }
            },
        }
        i += 1;
    }
    ctx.indent -= 1;
    res
}

/// Formats the six delimited forms: argument lists, parameter lists,
/// dictionary literals, array literals, destructuring patterns and
/// parenthesized groups, all through the one shared rule.
pub fn format_args(node: &Node, children: &Vec<Vec<char>>, ctx: &mut Ctx) -> (res: Vec<char>)
    requires
        children@.len() == node.children@.len(),
        old(ctx).indent < usize::MAX,
    ensures
        res@ == spec_delimited(*node, views_of(*children), old(ctx).config, old(ctx).indent as nat),
        *final(ctx) == *old(ctx),
{
    format_delimited(node, children, ctx)
}

} // verus!
