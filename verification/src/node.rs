//! The node abstraction the formatter consumes: an immutable concrete
//! syntax tree whose nodes carry a closed kind tag, ordered children, and
//! (for leaves) the raw source text.

use vstd::prelude::*;

verus! {

/// Closed tag over the grammar productions the formatter distinguishes.
/// Constructs with no bespoke rule are tagged `Text` and fall to the
/// default rule.
#[derive(Clone, Copy, PartialEq, Eq, Structural, Debug)]
pub enum Kind {
    /// Whitespace trivia.
    Space,
    /// The `:` separator of a named argument or keyed entry.
    Colon,
    /// The `=` token (assignment operator, or the binding token of `let`).
    Eq,
    /// The `,` separator of a delimited list.
    Comma,
    /// Opening delimiter of an argument/parameter list or parenthesized group.
    LeftParen,
    /// Closing delimiter of an argument/parameter list or parenthesized group.
    RightParen,
    /// Opening delimiter of a code block.
    LeftBrace,
    /// Closing delimiter of a code block.
    RightBrace,
    /// Opening delimiter of a content block, array, dictionary or destructuring.
    LeftBracket,
    /// Closing delimiter of a content block, array, dictionary or destructuring.
    RightBracket,
    /// A binary operator token other than `=`.
    Op,
    /// A left-associative binary operator chain.
    Binary,
    /// A named argument, `name: value`.
    Named,
    /// A keyed dictionary entry, `key: value`.
    Keyed,
    /// A braced code block.
    CodeBlock,
    /// A bracketed content block.
    ContentBlock,
    /// An argument list.
    Args,
    /// A parameter list.
    Params,
    /// A dictionary literal.
    Dict,
    /// An array literal.
    Array,
    /// A destructuring pattern.
    Destructuring,
    /// A parenthesized group.
    Parenthesized,
    /// A `let` binding.
    LetBinding,
    /// Any other construct: markup text, literals, identifiers, ...
    Text,
}

/// One node of the concrete syntax tree. Interior nodes own their ordered
/// children and no text; leaves own a raw source slice and no children.
pub struct Node {
    /// The grammar production this node belongs to.
    pub kind: Kind,
    /// Raw source text; meaningful only for leaves.
    pub text: Vec<char>,
    /// Ordered child nodes; order is significant and preserved in output.
    pub children: Vec<Node>,
}

/// Does this kind stand for a binary operator token (the operator kinds
/// proper, and `=` read as the assignment operator)?
pub open spec fn is_bin_op(k: Kind) -> bool {
    k == Kind::Op || k == Kind::Eq
}

/// Does this kind open a delimited construct?
pub open spec fn is_open_delim(k: Kind) -> bool {
    k == Kind::LeftParen || k == Kind::LeftBrace || k == Kind::LeftBracket
}

/// Does this kind close a delimited construct?
pub open spec fn is_close_delim(k: Kind) -> bool {
    k == Kind::RightParen || k == Kind::RightBrace || k == Kind::RightBracket
}

/// Whitespace as the formatter understands it.
pub open spec fn is_ws(c: char) -> bool {
    c == ' ' || c == '\n' || c == '\t' || c == '\r'
}

/// Every character of `s` is whitespace.
pub open spec fn all_ws(s: Seq<char>) -> bool {
    forall|i: int| 0 <= i < s.len() ==> is_ws(#[trigger] s[i])
}

/// Does this kind have a bespoke formatting rule (every other kind falls
/// to the default rule)?
pub open spec fn has_bespoke_rule(k: Kind) -> bool {
    ||| k == Kind::Binary
    ||| k == Kind::Named
    ||| k == Kind::Keyed
    ||| k == Kind::CodeBlock
    ||| k == Kind::ContentBlock
    ||| k == Kind::Args
    ||| k == Kind::Params
    ||| k == Kind::Dict
    ||| k == Kind::Array
    ||| k == Kind::Destructuring
    ||| k == Kind::Parenthesized
    ||| k == Kind::LetBinding
}

/// Well-formedness of a tree as the external parser produces it:
/// interior nodes carry no text of their own, a production node (one with
/// a bespoke rule) never carries text, whitespace trivia is a leaf made of
/// whitespace, and the `:` separator is the literal colon leaf.
pub open spec fn wf(node: Node) -> bool
    decreases node,
{
    &&& (node.children@.len() > 0 ==> node.text@.len() == 0)
    &&& (has_bespoke_rule(node.kind) ==> node.text@.len() == 0)
    &&& (node.kind == Kind::Space ==> node.children@.len() == 0 && all_ws(node.text@))
    &&& (node.kind == Kind::Colon ==> node.children@.len() == 0 && node.text@ =~= seq![':'])
    &&& (forall|i: int|
        0 <= i < node.children@.len() ==> wf(#[trigger] node.children@[i]))
}

} // verus!
