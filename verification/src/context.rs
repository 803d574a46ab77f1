//! The shared formatting context: read-only configuration, the indent-depth
//! counter, the diagnostics gathered so far, and the three text-assembly
//! primitives every construct rule builds its output with.

use vstd::prelude::*;

use crate::config::Config;

verus! {

/// A diagnostic the formatter can emit. Diagnostics are data: the caller
/// decides how to surface them.
#[derive(Clone, Copy, PartialEq, Eq, Structural, Debug)]
pub enum Warning {
    /// A binary-operator chain overflowed the width budget, and the
    /// breaking layout for such chains is not supported yet.
    BinaryBreakingUnsupported,
}

/// The context threaded by exclusive mutable access through one `format`
/// call: configuration, indent depth, and accumulated diagnostics.
pub struct Ctx {
    /// Immutable configuration for this call.
    pub config: Config,
    /// Current indent depth in levels; raised only while a block rule
    /// renders its nested lines, and restored on every exit path.
    pub indent: usize,
    /// Diagnostics emitted so far, in order.
    pub warnings: Vec<Warning>,
}

/// One step of normalized appending: `c` is dropped when it would form a
/// second consecutive plain space or a third consecutive newline.
pub open spec fn norm_step(buf: Seq<char>, c: char) -> Seq<char> {
    if c == ' ' && buf.len() >= 1 && buf.last() == ' ' {
        buf
    } else if c == '\n' && buf.len() >= 2 && buf[buf.len() - 1] == '\n' && buf[buf.len() - 2]
        == '\n' {
        buf
    } else {
        buf.push(c)
    }
}

/// Normalized append of `text` to `buf`: space runs collapse to one space
/// and newline runs to at most two newlines, judged against what already
/// stands at the end of the buffer.
pub open spec fn push_norm(buf: Seq<char>, text: Seq<char>) -> Seq<char>
    decreases text.len(),
{
    if text.len() == 0 {
        buf
    } else {
        norm_step(push_norm(buf, text.drop_last()), text.last())
    }
}

/// `text` normalized on its own, starting from an empty buffer.
pub open spec fn collapse(text: Seq<char>) -> Seq<char> {
    push_norm(Seq::empty(), text)
}

/// The indentation prefix for `depth` levels under `cfg`.
pub open spec fn indent_prefix(cfg: Config, depth: nat) -> Seq<char> {
    Seq::new((depth * cfg.indent_width) as nat, |i: int| cfg.indent_char)
}

/// `s` with the prefix `p` re-inserted after every newline.
pub open spec fn ins_after_newlines(s: Seq<char>, p: Seq<char>) -> Seq<char>
    decreases s.len(),
{
    if s.len() == 0 {
        Seq::empty()
    } else {
        ins_after_newlines(s.drop_last(), p) + (if s.last() == '\n' {
            seq!['\n'] + p
        } else {
            seq![s.last()]
        })
    }
}

/// `s` with every one of its lines prefixed by `p`.
pub open spec fn indent_lines(s: Seq<char>, p: Seq<char>) -> Seq<char> {
    p + ins_after_newlines(s, p)
}

impl Ctx {
    /// A fresh context for one formatting call: depth zero, no
    /// diagnostics yet.
    pub fn from_config(config: Config) -> (c: Ctx)
        ensures
            c.config == config,
            c.indent == 0,
            c.warnings@.len() == 0,
    {
        Ctx { config, indent: 0, warnings: Vec::new() }
    }

    /// Normalized append: the primitive used for raw leaf text and
    /// default-rule output.
    pub fn push_in(&self, text: &Vec<char>, res: &mut Vec<char>)
        ensures
            final(res)@ == push_norm(old(res)@, text@),
    {
        let mut i: usize = 0;
        while i < text.len()
            invariant
                i <= text@.len(),
                res@ == push_norm(old(res)@, text@.take(i as int)),
            decreases text@.len() - i,
        {
            let c = text[i];
            self.push_in_char(c, res);
            proof {
                assert(text@.take(i + 1).drop_last() =~= text@.take(i as int));
                assert(text@.take(i + 1).last() == text@[i as int]);
            }
            i += 1;
        }
        proof {
            assert(text@.take(text@.len() as int) =~= text@);
        }
    }

    /// Normalized append of a single character.
    pub fn push_in_char(&self, c: char, res: &mut Vec<char>)
        ensures
            final(res)@ == norm_step(old(res)@, c),
    {
        let n = res.len();
        let skip: bool = if c == ' ' {
            n >= 1 && res[n - 1] == ' '
        } else if c == '\n' {
            n >= 2 && res[n - 1] == '\n' && res[n - 2] == '\n'
        } else {
            false
        };
        if !skip {
            res.push(c);
        }
    }

    /// Raw append: an already-formatted child string goes in unmodified;
    /// an ancestor never renormalizes a child's output.
    pub fn push_raw_in(&self, s: &Vec<char>, res: &mut Vec<char>)
        ensures
            final(res)@ == old(res)@ + s@,
    {
        let mut i: usize = 0;
        while i < s.len()
            invariant
                i <= s@.len(),
                res@ == old(res)@ + s@.take(i as int),
            decreases s@.len() - i,
        {
            res.push(s[i]);
            proof {
                assert(old(res)@ + s@.take(i + 1) =~= (old(res)@ + s@.take(i as int)).push(
                    s@[i as int],
                ));
            }
            i += 1;
        }
        proof {
            assert(s@.take(s@.len() as int) =~= s@);
        }
    }

    /// Appends one indentation prefix for the current depth.
    pub fn push_prefix(&self, res: &mut Vec<char>)
        ensures
            final(res)@ == old(res)@ + indent_prefix(self.config, self.indent as nat),
    {
        let mut lvl: usize = 0;
        while lvl < self.indent
            invariant
                lvl <= self.indent,
                res@ == old(res)@ + indent_prefix(self.config, lvl as nat),
            decreases self.indent - lvl,
        {
            let mut j: usize = 0;
            while j < self.config.indent_width
                invariant
                    j <= self.config.indent_width,
                    res@ == old(res)@ + indent_prefix(self.config, lvl as nat) + Seq::new(
                        j as nat,
                        |i: int| self.config.indent_char,
                    ),
                decreases self.config.indent_width - j,
            {
                res.push(self.config.indent_char);
                proof {
                    assert(Seq::new((j + 1) as nat, |i: int| self.config.indent_char)
                        =~= Seq::new(j as nat, |i: int| self.config.indent_char).push(
                        self.config.indent_char,
                    ));
                }
                j += 1;
            }
            proof {
                let w = self.config.indent_width as nat;
                assert(((lvl + 1) as nat) * w == (lvl as nat) * w + w) by (nonlinear_arith);
                assert(indent_prefix(self.config, (lvl + 1) as nat) =~= indent_prefix(
                    self.config,
                    lvl as nat,
                ) + Seq::new(self.config.indent_width as nat, |i: int| self.config.indent_char));
            }
            lvl += 1;
        }
        proof {
            assert(res@ =~= old(res)@ + indent_prefix(self.config, self.indent as nat));
        }
    }

    /// Indented append: `s` goes in with every one of its lines prefixed
    /// by the current indentation; used only by rules that open a nested
    /// block.
    pub fn push_raw_indent(&self, s: &Vec<char>, res: &mut Vec<char>)
        ensures
            final(res)@ == old(res)@ + indent_lines(s@, indent_prefix(self.config, self.indent as nat)),
    {
        self.push_prefix(res);
        let mut i: usize = 0;
        while i < s.len()
            invariant
                i <= s@.len(),
                res@ == old(res)@ + indent_prefix(self.config, self.indent as nat)
                    + ins_after_newlines(s@.take(i as int), indent_prefix(
                    self.config,
                    self.indent as nat,
                )),
            decreases s@.len() - i,
        {
            let c = s[i];
            res.push(c);
            if c == '\n' {
                self.push_prefix(res);
            }
            proof {
                let p = indent_prefix(self.config, self.indent as nat);
                assert(s@.take(i + 1).drop_last() =~= s@.take(i as int));
                assert(s@.take(i + 1).last() == s@[i as int]);
                if s@[i as int] == '\n' {
                    assert(res@ =~= old(res)@ + p + ins_after_newlines(s@.take(i + 1), p));
                } else {
                    assert(res@ =~= old(res)@ + p + ins_after_newlines(s@.take(i + 1), p));
                }
            }
            i += 1;
        }
        proof {
            assert(s@.take(s@.len() as int) =~= s@);
        }
    }
}

} // verus!
