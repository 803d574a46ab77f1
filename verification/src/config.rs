//! Formatter configuration: the line-width budget and the indent unit.

use vstd::prelude::*;

use crate::node::is_ws;

verus! {

/// The recognized options. `max_line_length` is the column budget the
/// width-sensitive rules compare against; the indent unit is
/// `indent_width` copies of `indent_char` per nesting level.
#[derive(Clone, Copy, PartialEq, Eq, Structural, Debug)]
pub struct Config {
    /// Column budget for single-line versus multi-line layout decisions.
    pub max_line_length: usize,
    /// How many copies of `indent_char` one indent level is made of.
    pub indent_width: usize,
    /// The character indentation is built from; must be whitespace.
    pub indent_char: char,
}

impl Config {
    /// A configuration is meaningful only if indentation is made of
    /// whitespace.
    pub open spec fn wf(self) -> bool {
        is_ws(self.indent_char)
    }

    /// Is this character usable as an indent unit?
    pub fn indent_char_ok(c: char) -> (r: bool)
        ensures
            r == is_ws(c),
    {
        c == ' ' || c == '\n' || c == '\t' || c == '\r'
    }
}

impl Default for Config {
    /// The stated defaults: an 80-column budget and two-space indents.
    fn default() -> (c: Config)
        ensures
            c.max_line_length == 80,
            c.indent_width == 2,
            c.indent_char == ' ',
            c.wf(),
    {
        Config { max_line_length: 80, indent_width: 2, indent_char: ' ' }
    }
}

} // verus!
