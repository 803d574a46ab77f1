//! The library's stated laws. The normalizing primitive never leaves two
//! consecutive plain spaces or three consecutive newlines, and is
//! idempotent; and formatting preserves the tree's content: the rendering
//! of a well-formed tree equals the concatenation of its leaf texts once
//! all whitespace is set aside — whitespace is all a rule may insert,
//! keep or discard.

use vstd::prelude::*;

use crate::args::delim_broken_upto;
use crate::args::delim_tight_upto;
use crate::args::spec_delim_tight;
use crate::args::spec_delimited;
use crate::bin_tight_upto;
use crate::child_strs;
use crate::config::Config;
use crate::context::collapse;
use crate::context::indent_lines;
use crate::context::indent_prefix;
use crate::context::ins_after_newlines;
use crate::context::norm_step;
use crate::context::push_norm;
use crate::default_upto;
use crate::flat_cat;
use crate::flat_text;
use crate::lemma_child_strs_index;
use crate::let_upto;
use crate::named_upto;
use crate::node::all_ws;
use crate::node::is_bin_op;
use crate::node::is_close_delim;
use crate::node::is_open_delim;
use crate::node::is_ws;
use crate::node::wf;
use crate::node::Kind;
use crate::node::Node;
use crate::spec_bin_tight;
use crate::spec_default;
use crate::spec_fmt;
use crate::spec_visit;

verus! {

broadcast use vstd::seq::axiom_seq_index_decreases, vstd::seq::axiom_seq_subrange_decreases, vstd::std_specs::vec::axiom_vec_decreases_to_view;

/// `s` with every whitespace character removed: the semantic content of a
/// rendering.
pub open spec fn drop_ws(s: Seq<char>) -> Seq<char>
    decreases s.len(),
{
    if s.len() == 0 {
        Seq::empty()
    } else {
        drop_ws(s.drop_last()) + (if is_ws(s.last()) {
            Seq::<char>::empty()
        } else {
            seq![s.last()]
        })
    }
}

/// `s` never puts two plain spaces side by side.
pub open spec fn no_double_space(s: Seq<char>) -> bool {
    forall|i: int| 0 < i < s.len() ==> !(#[trigger] s[i] == ' ' && s[i - 1] == ' ')
}

/// `s` never puts three newlines side by side.
pub open spec fn no_triple_newline(s: Seq<char>) -> bool {
    forall|i: int|
        1 < i < s.len() ==> !(#[trigger] s[i] == '\n' && s[i - 1] == '\n' && s[i - 2] == '\n')
}

/// Dropping whitespace distributes over concatenation.
proof fn lemma_drop_ws_concat(a: Seq<char>, b: Seq<char>)
    ensures
        drop_ws(a + b) == drop_ws(a) + drop_ws(b),
    decreases b.len(),
{
    if b.len() == 0 {
        assert(a + b =~= a);
        assert(drop_ws(a) + drop_ws(b) =~= drop_ws(a));
    } else {
        lemma_drop_ws_concat(a, b.drop_last());
        assert((a + b).drop_last() =~= a + b.drop_last());
        assert((a + b).last() == b.last());
        assert(drop_ws(a + b) =~= drop_ws(a) + drop_ws(b));
    }
}

/// Dropping whitespace from a single character.
proof fn lemma_drop_ws_singleton(c: char)
    ensures
        drop_ws(seq![c]) == if is_ws(c) {
            Seq::<char>::empty()
        } else {
            seq![c]
        },
{
    assert(seq![c].drop_last() =~= Seq::<char>::empty());
    assert(seq![c].last() == c);
    assert(drop_ws(Seq::<char>::empty()) =~= Seq::<char>::empty());
    if is_ws(c) {
        assert(drop_ws(seq![c]) =~= Seq::<char>::empty());
    } else {
        assert(drop_ws(seq![c]) =~= seq![c]);
    }
}

/// A normalizing step only ever withholds whitespace.
proof fn lemma_drop_ws_norm_step(buf: Seq<char>, c: char)
    ensures
        drop_ws(norm_step(buf, c)) == drop_ws(buf) + (if is_ws(c) {
            Seq::<char>::empty()
        } else {
            seq![c]
        }),
{
    if c == ' ' && buf.len() >= 1 && buf.last() == ' ' {
        assert(drop_ws(buf) + Seq::<char>::empty() =~= drop_ws(buf));
    } else if c == '\n' && buf.len() >= 2 && buf[buf.len() - 1] == '\n' && buf[buf.len() - 2]
        == '\n' {
        assert(drop_ws(buf) + Seq::<char>::empty() =~= drop_ws(buf));
    } else {
        assert(buf.push(c).drop_last() =~= buf);
        assert(buf.push(c).last() == c);
    }
}

/// The normalizing append only ever withholds whitespace.
proof fn lemma_drop_ws_push_norm(buf: Seq<char>, t: Seq<char>)
    ensures
        drop_ws(push_norm(buf, t)) == drop_ws(buf) + drop_ws(t),
    decreases t.len(),
{
    if t.len() == 0 {
        assert(drop_ws(buf) + drop_ws(t) =~= drop_ws(buf));
    } else {
        lemma_drop_ws_push_norm(buf, t.drop_last());
        lemma_drop_ws_norm_step(push_norm(buf, t.drop_last()), t.last());
        assert(drop_ws(push_norm(buf, t)) =~= drop_ws(buf) + drop_ws(t));
    }
}

/// A whitespace-only text has no content.
proof fn lemma_drop_ws_all_ws(s: Seq<char>)
    requires
        all_ws(s),
    ensures
        drop_ws(s) == Seq::<char>::empty(),
    decreases s.len(),
{
    if s.len() > 0 {
        assert(all_ws(s.drop_last())) by {
            assert(forall|i: int|
                0 <= i < s.drop_last().len() ==> #[trigger] s.drop_last()[i] == s[i]);
        }
        lemma_drop_ws_all_ws(s.drop_last());
        assert(is_ws(s[s.len() - 1]));
        assert(drop_ws(s) =~= Seq::<char>::empty());
    }
}

/// An indentation prefix is whitespace-only under a well-formed
/// configuration.
proof fn lemma_prefix_all_ws(cfg: Config, depth: nat)
    requires
        cfg.wf(),
    ensures
        all_ws(indent_prefix(cfg, depth)),
{
}

/// Re-inserting a whitespace-only prefix after newlines adds no content.
proof fn lemma_drop_ws_ins(s: Seq<char>, p: Seq<char>)
    requires
        all_ws(p),
    ensures
        drop_ws(ins_after_newlines(s, p)) == drop_ws(s),
    decreases s.len(),
{
    if s.len() > 0 {
        lemma_drop_ws_ins(s.drop_last(), p);
        let tail = if s.last() == '\n' {
            seq!['\n'] + p
        } else {
            seq![s.last()]
        };
        lemma_drop_ws_concat(ins_after_newlines(s.drop_last(), p), tail);
        if s.last() == '\n' {
            lemma_drop_ws_concat(seq!['\n'], p);
            lemma_drop_ws_all_ws(p);
            lemma_drop_ws_singleton('\n');
        } else {
            lemma_drop_ws_singleton(s.last());
        }
        assert(drop_ws(ins_after_newlines(s, p)) =~= drop_ws(s));
    }
}

/// The indented append adds no content.
proof fn lemma_drop_ws_indent_lines(s: Seq<char>, p: Seq<char>)
    requires
        all_ws(p),
    ensures
        drop_ws(indent_lines(s, p)) == drop_ws(s),
{
    lemma_drop_ws_all_ws(p);
    lemma_drop_ws_ins(s, p);
    lemma_drop_ws_concat(p, ins_after_newlines(s, p));
    assert(drop_ws(indent_lines(s, p)) =~= drop_ws(s));
}

/// `flat_cat` over one more node.
proof fn lemma_flat_cat_snoc(nodes: Seq<Node>, i: int)
    requires
        0 <= i < nodes.len(),
    ensures
        flat_cat(nodes.take(i + 1)) == flat_cat(nodes.take(i)) + flat_text(nodes[i]),
{
    assert(nodes.take(i + 1).drop_last() =~= nodes.take(i));
    assert(nodes.take(i + 1).last() == nodes[i]);
}

/// The default rule preserves content.
proof fn lemma_default_content(node: Node, cs: Seq<Seq<char>>, i: int)
    requires
        0 <= i <= node.children@.len(),
        cs.len() == node.children@.len(),
        forall|j: int|
            0 <= j < node.children@.len() ==> drop_ws(#[trigger] cs[j]) == drop_ws(
                flat_text(node.children@[j]),
            ),
    ensures
        drop_ws(default_upto(node, cs, i)) == drop_ws(node.text@) + drop_ws(
            flat_cat(node.children@.take(i)),
        ),
    decreases i,
{
    if i <= 0 {
        lemma_drop_ws_push_norm(Seq::empty(), node.text@);
        assert(node.children@.take(0) =~= Seq::<Node>::empty());
        assert(drop_ws(collapse(node.text@)) =~= drop_ws(node.text@) + drop_ws(
            flat_cat(node.children@.take(0)),
        ));
    } else {
        lemma_default_content(node, cs, i - 1);
        lemma_drop_ws_concat(default_upto(node, cs, i - 1), cs[i - 1]);
        lemma_flat_cat_snoc(node.children@, i - 1);
        lemma_drop_ws_concat(flat_cat(node.children@.take(i - 1)), flat_text(node.children@[i - 1]));
        assert(drop_ws(default_upto(node, cs, i)) =~= drop_ws(node.text@) + drop_ws(
            flat_cat(node.children@.take(i)),
        ));
    }
}

/// The tight binary rule preserves content.
proof fn lemma_bin_tight_content(node: Node, cs: Seq<Seq<char>>, i: int)
    requires
        0 <= i <= node.children@.len(),
        cs.len() == node.children@.len(),
        forall|j: int|
            0 <= j < node.children@.len() ==> drop_ws(#[trigger] cs[j]) == drop_ws(
                flat_text(node.children@[j]),
            ),
        forall|j: int|
            0 <= j < node.children@.len() && (#[trigger] node.children@[j].kind) == Kind::Space
                ==> drop_ws(flat_text(node.children@[j])) == Seq::<char>::empty(),
    ensures
        drop_ws(bin_tight_upto(node, cs, i)) == drop_ws(flat_cat(node.children@.take(i))),
    decreases i,
{
    if i <= 0 {
        assert(node.children@.take(0) =~= Seq::<Node>::empty());
    } else {
        lemma_bin_tight_content(node, cs, i - 1);
        lemma_flat_cat_snoc(node.children@, i - 1);
        lemma_drop_ws_concat(flat_cat(node.children@.take(i - 1)), flat_text(node.children@[i - 1]));
        let buf = bin_tight_upto(node, cs, i - 1);
        let k = node.children@[i - 1].kind;
        let s = cs[i - 1];
        if k == Kind::Space {
            assert(drop_ws(bin_tight_upto(node, cs, i)) =~= drop_ws(
                flat_cat(node.children@.take(i)),
            ));
        } else if is_bin_op(k) {
            lemma_drop_ws_norm_step(buf, ' ');
            lemma_drop_ws_concat(norm_step(buf, ' '), s);
            lemma_drop_ws_norm_step(norm_step(buf, ' ') + s, ' ');
            assert(drop_ws(bin_tight_upto(node, cs, i)) =~= drop_ws(
                flat_cat(node.children@.take(i)),
            ));
        } else {
            lemma_drop_ws_concat(buf, s);
            assert(drop_ws(bin_tight_upto(node, cs, i)) =~= drop_ws(
                flat_cat(node.children@.take(i)),
            ));
        }
    }
}

/// The named-argument rule preserves content.
proof fn lemma_named_content(node: Node, cs: Seq<Seq<char>>, i: int)
    requires
        0 <= i <= node.children@.len(),
        cs.len() == node.children@.len(),
        forall|j: int|
            0 <= j < node.children@.len() ==> drop_ws(#[trigger] cs[j]) == drop_ws(
                flat_text(node.children@[j]),
            ),
        forall|j: int|
            0 <= j < node.children@.len() && (#[trigger] node.children@[j].kind) == Kind::Space
                ==> drop_ws(flat_text(node.children@[j])) == Seq::<char>::empty(),
        forall|j: int|
            0 <= j < node.children@.len() && (#[trigger] node.children@[j].kind) == Kind::Colon
                ==> drop_ws(flat_text(node.children@[j])) == seq![':'],
    ensures
        drop_ws(named_upto(node, cs, i)) == drop_ws(flat_cat(node.children@.take(i))),
    decreases i,
{
    if i <= 0 {
        assert(node.children@.take(0) =~= Seq::<Node>::empty());
    } else {
        lemma_named_content(node, cs, i - 1);
        lemma_flat_cat_snoc(node.children@, i - 1);
        lemma_drop_ws_concat(flat_cat(node.children@.take(i - 1)), flat_text(node.children@[i - 1]));
        let buf = named_upto(node, cs, i - 1);
        let k = node.children@[i - 1].kind;
        let s = cs[i - 1];
        if k == Kind::Space {
            assert(drop_ws(named_upto(node, cs, i)) =~= drop_ws(flat_cat(node.children@.take(i))));
        } else if k == Kind::Colon {
            lemma_drop_ws_concat(buf, seq![':', ' ']);
            assert(seq![':', ' '] =~= seq![':'] + seq![' ']);
            lemma_drop_ws_concat(seq![':'], seq![' ']);
            lemma_drop_ws_singleton(':');
            lemma_drop_ws_singleton(' ');
            assert(drop_ws(seq![':', ' ']) =~= seq![':']);
            assert(drop_ws(named_upto(node, cs, i)) =~= drop_ws(flat_cat(node.children@.take(i))));
        } else {
            lemma_drop_ws_concat(buf, s);
            assert(drop_ws(named_upto(node, cs, i)) =~= drop_ws(flat_cat(node.children@.take(i))));
        }
    }
}

/// The let-binding rule preserves content.
proof fn lemma_let_content(node: Node, cs: Seq<Seq<char>>, i: int)
    requires
        0 <= i <= node.children@.len(),
        cs.len() == node.children@.len(),
        forall|j: int|
            0 <= j < node.children@.len() ==> drop_ws(#[trigger] cs[j]) == drop_ws(
                flat_text(node.children@[j]),
            ),
    ensures
        drop_ws(let_upto(node, cs, i)) == drop_ws(flat_cat(node.children@.take(i))),
    decreases i,
{
    if i <= 0 {
        assert(node.children@.take(0) =~= Seq::<Node>::empty());
    } else {
        lemma_let_content(node, cs, i - 1);
        lemma_flat_cat_snoc(node.children@, i - 1);
        lemma_drop_ws_concat(flat_cat(node.children@.take(i - 1)), flat_text(node.children@[i - 1]));
        let buf = let_upto(node, cs, i - 1);
        let k = node.children@[i - 1].kind;
        let s = cs[i - 1];
        if k == Kind::Eq {
            lemma_drop_ws_norm_step(buf, ' ');
            lemma_drop_ws_push_norm(norm_step(buf, ' '), s);
            lemma_drop_ws_norm_step(push_norm(norm_step(buf, ' '), s), ' ');
            assert(drop_ws(let_upto(node, cs, i)) =~= drop_ws(flat_cat(node.children@.take(i))));
        } else if k == Kind::Space {
            lemma_drop_ws_push_norm(buf, s);
            assert(drop_ws(let_upto(node, cs, i)) =~= drop_ws(flat_cat(node.children@.take(i))));
        } else {
            lemma_drop_ws_concat(buf, s);
            assert(drop_ws(let_upto(node, cs, i)) =~= drop_ws(flat_cat(node.children@.take(i))));
        }
    }
}

/// The single-line delimited layout preserves content.
proof fn lemma_delim_tight_content(node: Node, cs: Seq<Seq<char>>, i: int)
    requires
        0 <= i <= node.children@.len(),
        cs.len() == node.children@.len(),
        forall|j: int|
            0 <= j < node.children@.len() ==> drop_ws(#[trigger] cs[j]) == drop_ws(
                flat_text(node.children@[j]),
            ),
        forall|j: int|
            0 <= j < node.children@.len() && (#[trigger] node.children@[j].kind) == Kind::Space
                ==> drop_ws(flat_text(node.children@[j])) == Seq::<char>::empty(),
    ensures
        drop_ws(delim_tight_upto(node, cs, i)) == drop_ws(flat_cat(node.children@.take(i))),
    decreases i,
{
    if i <= 0 {
        assert(node.children@.take(0) =~= Seq::<Node>::empty());
    } else {
        lemma_delim_tight_content(node, cs, i - 1);
        lemma_flat_cat_snoc(node.children@, i - 1);
        lemma_drop_ws_concat(flat_cat(node.children@.take(i - 1)), flat_text(node.children@[i - 1]));
        let buf = delim_tight_upto(node, cs, i - 1);
        let k = node.children@[i - 1].kind;
        let s = cs[i - 1];
        if k == Kind::Space {
            assert(drop_ws(delim_tight_upto(node, cs, i)) =~= drop_ws(
                flat_cat(node.children@.take(i)),
            ));
        } else if k == Kind::Comma || is_close_delim(k) {
            lemma_drop_ws_concat(buf, s);
            assert(drop_ws(delim_tight_upto(node, cs, i)) =~= drop_ws(
                flat_cat(node.children@.take(i)),
            ));
        } else if buf.len() > 0 && buf.last() == ',' {
            assert(buf.push(' ') =~= buf + seq![' ']);
            lemma_drop_ws_concat(buf, seq![' ']);
            lemma_drop_ws_singleton(' ');
            lemma_drop_ws_concat(buf.push(' '), s);
            assert(drop_ws(delim_tight_upto(node, cs, i)) =~= drop_ws(
                flat_cat(node.children@.take(i)),
            ));
        } else {
            lemma_drop_ws_concat(buf, s);
            assert(drop_ws(delim_tight_upto(node, cs, i)) =~= drop_ws(
                flat_cat(node.children@.take(i)),
            ));
        }
    }
}

/// The one-item-per-line delimited layout preserves content.
proof fn lemma_delim_broken_content(node: Node, cs: Seq<Seq<char>>, cfg: Config, depth: nat, i: int)
    requires
        cfg.wf(),
        0 <= i <= node.children@.len(),
        cs.len() == node.children@.len(),
        forall|j: int|
            0 <= j < node.children@.len() ==> drop_ws(#[trigger] cs[j]) == drop_ws(
                flat_text(node.children@[j]),
            ),
        forall|j: int|
            0 <= j < node.children@.len() && (#[trigger] node.children@[j].kind) == Kind::Space
                ==> drop_ws(flat_text(node.children@[j])) == Seq::<char>::empty(),
    ensures
        drop_ws(delim_broken_upto(node, cs, cfg, depth, i)) == drop_ws(
            flat_cat(node.children@.take(i)),
        ),
    decreases i,
{
    if i <= 0 {
        assert(node.children@.take(0) =~= Seq::<Node>::empty());
    } else {
        lemma_delim_broken_content(node, cs, cfg, depth, i - 1);
        lemma_flat_cat_snoc(node.children@, i - 1);
        lemma_drop_ws_concat(flat_cat(node.children@.take(i - 1)), flat_text(node.children@[i - 1]));
        let buf = delim_broken_upto(node, cs, cfg, depth, i - 1);
        let k = node.children@[i - 1].kind;
        let s = cs[i - 1];
        let p0 = indent_prefix(cfg, depth);
        let p1 = indent_prefix(cfg, depth + 1);
        lemma_prefix_all_ws(cfg, depth);
        lemma_prefix_all_ws(cfg, depth + 1);
        if k == Kind::Space {
            assert(drop_ws(delim_broken_upto(node, cs, cfg, depth, i)) =~= drop_ws(
                flat_cat(node.children@.take(i)),
            ));
        } else if k == Kind::Comma || is_open_delim(k) {
            lemma_drop_ws_concat(buf, s);
            assert(drop_ws(delim_broken_upto(node, cs, cfg, depth, i)) =~= drop_ws(
                flat_cat(node.children@.take(i)),
            ));
        } else if is_close_delim(k) {
            lemma_drop_ws_concat(buf, seq!['\n']);
            lemma_drop_ws_singleton('\n');
            lemma_drop_ws_concat(buf + seq!['\n'], p0);
            lemma_drop_ws_all_ws(p0);
            lemma_drop_ws_concat(buf + seq!['\n'] + p0, s);
            assert(drop_ws(delim_broken_upto(node, cs, cfg, depth, i)) =~= drop_ws(
                flat_cat(node.children@.take(i)),
            ));
        } else {
            lemma_drop_ws_concat(buf, seq!['\n']);
            lemma_drop_ws_singleton('\n');
            lemma_drop_ws_indent_lines(s, p1);
            lemma_drop_ws_concat(buf + seq!['\n'], indent_lines(s, p1));
            assert(drop_ws(delim_broken_upto(node, cs, cfg, depth, i)) =~= drop_ws(
                flat_cat(node.children@.take(i)),
            ));
        }
    }
}

/// Formatting never reorders or drops semantic content: for every
/// well-formed tree and whitespace-indenting configuration, the rendering
/// equals the tree's leaf texts, in order, once all whitespace is set
/// aside.
pub proof fn lemma_format_preserves_content(node: Node, cfg: Config, depth: nat)
    requires
        wf(node),
        cfg.wf(),
    ensures
        drop_ws(spec_visit(node, cfg, depth)) == drop_ws(flat_text(node)),
    decreases node,
{
    let nodes = node.children@;
    let n = nodes.len() as int;
    let cs = child_strs(nodes, cfg, depth);
    lemma_child_strs_index(nodes, cfg, depth);
    assert forall|j: int| 0 <= j < n implies drop_ws(#[trigger] cs[j]) == drop_ws(
        flat_text(nodes[j]),
    ) by {
        assert(wf(nodes[j]));
        lemma_format_preserves_content(nodes[j], cfg, depth);
    }
    assert forall|j: int|
        0 <= j < n && (#[trigger] nodes[j].kind) == Kind::Space implies drop_ws(
        flat_text(nodes[j]),
    ) == Seq::<char>::empty() by {
        assert(wf(nodes[j]));
        lemma_drop_ws_all_ws(nodes[j].text@);
    }
    assert forall|j: int|
        0 <= j < n && (#[trigger] nodes[j].kind) == Kind::Colon implies drop_ws(
        flat_text(nodes[j]),
    ) == seq![':'] by {
        assert(wf(nodes[j]));
        assert(flat_text(nodes[j]) == nodes[j].text@);
        lemma_drop_ws_singleton(':');
    }
    assert(nodes.take(n) =~= nodes);
    if n == 0 {
        assert(flat_text(node) == node.text@);
    }
    let k = node.kind;
    if k == Kind::Binary {
        lemma_bin_tight_content(node, cs, n);
        if n == 0 {
            assert(node.text@ =~= Seq::<char>::empty());
        }
    } else if k == Kind::Named || k == Kind::Keyed {
        lemma_named_content(node, cs, n);
        if n == 0 {
            assert(node.text@ =~= Seq::<char>::empty());
        }
    } else if k == Kind::CodeBlock || k == Kind::ContentBlock || k == Kind::Args || k
        == Kind::Params || k == Kind::Dict || k == Kind::Array || k == Kind::Destructuring || k
        == Kind::Parenthesized {
        lemma_delim_tight_content(node, cs, n);
        lemma_delim_broken_content(node, cs, cfg, depth, n);
        if n == 0 {
            assert(node.text@ =~= Seq::<char>::empty());
        }
    } else if k == Kind::LetBinding {
        lemma_let_content(node, cs, n);
        if n == 0 {
            assert(node.text@ =~= Seq::<char>::empty());
        }
    } else {
        lemma_default_content(node, cs, n);
        if n > 0 {
            assert(node.text@ =~= Seq::<char>::empty());
            assert(drop_ws(spec_default(node, cs)) =~= drop_ws(flat_cat(nodes)));
        } else {
            assert(drop_ws(flat_cat(nodes.take(0))) =~= Seq::<char>::empty());
            assert(drop_ws(spec_default(node, cs)) =~= drop_ws(node.text@));
        }
    }
}

/// Boundary inclusivity of the delimited-list rule: a list whose
/// single-line layout is no longer than the width budget — a line exactly
/// as long as the budget included — renders on that single line, never
/// split.
pub proof fn lemma_delimited_boundary_inclusive(
    node: Node,
    cs: Seq<Seq<char>>,
    cfg: Config,
    depth: nat,
)
    requires
        crate::utils::max_line_len(spec_delim_tight(node, cs)) <= cfg.max_line_length,
    ensures
        spec_delimited(node, cs, cfg, depth) == spec_delim_tight(node, cs),
{
}

/// The binary rule never reflows: whatever the width budget, the rendered
/// chain is always the tight layout; overflow only adds the one
/// diagnostic.
pub proof fn lemma_binary_output_unchanged_on_overflow(
    node: Node,
    cs: Seq<Seq<char>>,
    cfg: Config,
    depth: nat,
)
    requires
        node.kind == Kind::Binary,
    ensures
        spec_fmt(node, cs, cfg, depth) == spec_bin_tight(node, cs),
        crate::utils::max_line_len(spec_bin_tight(node, cs)) > cfg.max_line_length
            ==> crate::bin_warns(node, cs, cfg) =~= seq![
            crate::context::Warning::BinaryBreakingUnsupported,
        ],
        crate::utils::max_line_len(spec_bin_tight(node, cs)) <= cfg.max_line_length
            ==> crate::bin_warns(node, cs, cfg) =~= Seq::<crate::context::Warning>::empty(),
{
}

/// Normalizing keeps runs within bounds: one normalizing step never
/// creates a second consecutive space or a third consecutive newline.
proof fn lemma_norm_step_no_runs(buf: Seq<char>, c: char)
    requires
        no_double_space(buf),
        no_triple_newline(buf),
    ensures
        no_double_space(norm_step(buf, c)),
        no_triple_newline(norm_step(buf, c)),
{
    let r = norm_step(buf, c);
    if r == buf {
    } else {
        assert(r == buf.push(c));
        assert forall|i: int| 0 < i < r.len() implies !(#[trigger] r[i] == ' ' && r[i - 1] == ' ')
            by {
            if i < buf.len() {
                assert(r[i] == buf[i]);
                assert(r[i - 1] == buf[i - 1]);
            } else {
                assert(r[i] == c);
                assert(r[i - 1] == buf[buf.len() - 1]);
            }
        }
        assert forall|i: int|
            1 < i < r.len() implies !(#[trigger] r[i] == '\n' && r[i - 1] == '\n' && r[i - 2]
            == '\n') by {
            if i < buf.len() {
                assert(r[i] == buf[i]);
                assert(r[i - 1] == buf[i - 1]);
                assert(r[i - 2] == buf[i - 2]);
            } else {
                assert(r[i] == c);
                assert(r[i - 1] == buf[buf.len() - 1]);
                assert(r[i - 2] == buf[buf.len() - 2]);
            }
        }
    }
}

/// The normalizing append keeps runs within bounds.
proof fn lemma_push_norm_no_runs(buf: Seq<char>, t: Seq<char>)
    requires
        no_double_space(buf),
        no_triple_newline(buf),
    ensures
        no_double_space(push_norm(buf, t)),
        no_triple_newline(push_norm(buf, t)),
    decreases t.len(),
{
    if t.len() > 0 {
        lemma_push_norm_no_runs(buf, t.drop_last());
        lemma_norm_step_no_runs(push_norm(buf, t.drop_last()), t.last());
    }
}

/// Space collapse: however the input ran its spaces and newlines
/// together, normalized text never holds two consecutive plain spaces,
/// nor three consecutive newlines.
pub proof fn lemma_collapse_no_runs(t: Seq<char>)
    ensures
        no_double_space(collapse(t)),
        no_triple_newline(collapse(t)),
{
    lemma_push_norm_no_runs(Seq::empty(), t);
}

/// Bounded runs survive shortening from the end.
proof fn lemma_no_runs_drop_last(r: Seq<char>)
    requires
        r.len() > 0,
        no_double_space(r),
        no_triple_newline(r),
    ensures
        no_double_space(r.drop_last()),
        no_triple_newline(r.drop_last()),
{
    assert(forall|i: int| 0 <= i < r.drop_last().len() ==> #[trigger] r.drop_last()[i] == r[i]);
}

/// A text whose runs are already within bounds normalizes to itself.
proof fn lemma_collapse_fixed(r: Seq<char>)
    requires
        no_double_space(r),
        no_triple_newline(r),
    ensures
        collapse(r) == r,
    decreases r.len(),
{
    if r.len() == 0 {
        assert(collapse(r) =~= r);
    } else {
        lemma_no_runs_drop_last(r);
        lemma_collapse_fixed(r.drop_last());
        let buf = r.drop_last();
        let c = r.last();
        if c == ' ' && buf.len() >= 1 && buf.last() == ' ' {
            assert(r[r.len() - 1] == ' ' && r[r.len() - 2] == ' ');
            assert(false);
        }
        if c == '\n' && buf.len() >= 2 && buf[buf.len() - 1] == '\n' && buf[buf.len() - 2] == '\n' {
            assert(r[r.len() - 1] == '\n' && r[r.len() - 2] == '\n' && r[r.len() - 3] == '\n');
            assert(false);
        }
        assert(collapse(r) == norm_step(buf, c));
        assert(norm_step(buf, c) == buf.push(c));
        assert(buf.push(c) =~= r);
    }
}

/// Idempotence of normalization: normalizing already-normalized text
/// changes nothing.
pub proof fn lemma_collapse_idempotent(t: Seq<char>)
    ensures
        collapse(collapse(t)) == collapse(t),
{
    lemma_collapse_no_runs(t);
    lemma_collapse_fixed(collapse(t));
}

} // verus!
