use typst_syntax::ast::BinOp;
use typst_syntax::parse;
use typst_syntax::SyntaxKind;
use typst_syntax::SyntaxNode;
use typstfmt::format_with_diagnostics;
use typstfmt::Config;
use typstfmt::Kind;
use typstfmt::Node;
use typstfmt::Warning;

fn kind_of(k: SyntaxKind) -> Kind {
    match k {
        SyntaxKind::Space => Kind::Space,
        SyntaxKind::Colon => Kind::Colon,
        SyntaxKind::Eq => Kind::Eq,
        SyntaxKind::Comma => Kind::Comma,
        SyntaxKind::LeftParen => Kind::LeftParen,
        SyntaxKind::RightParen => Kind::RightParen,
        SyntaxKind::LeftBrace => Kind::LeftBrace,
        SyntaxKind::RightBrace => Kind::RightBrace,
        SyntaxKind::LeftBracket => Kind::LeftBracket,
        SyntaxKind::RightBracket => Kind::RightBracket,
        SyntaxKind::Binary => Kind::Binary,
        SyntaxKind::Named => Kind::Named,
        SyntaxKind::Keyed => Kind::Keyed,
        SyntaxKind::CodeBlock => Kind::CodeBlock,
        SyntaxKind::ContentBlock => Kind::ContentBlock,
        SyntaxKind::Args => Kind::Args,
        SyntaxKind::Params => Kind::Params,
        SyntaxKind::Dict => Kind::Dict,
        SyntaxKind::Array => Kind::Array,
        SyntaxKind::Destructuring => Kind::Destructuring,
        SyntaxKind::Parenthesized => Kind::Parenthesized,
        SyntaxKind::LetBinding => Kind::LetBinding,
        other => {
            if BinOp::from_kind(other).is_some() {
                Kind::Op
            } else {
                Kind::Text
            }
        }
    }
}

fn convert(node: &SyntaxNode) -> Node {
    let children: Vec<Node> = node.children().map(convert).collect();
    let text: Vec<char> = if children.is_empty() {
        node.leaf_text().chars().collect()
    } else {
        Vec::new()
    };
    Node { kind: kind_of(node.kind()), text, children }
}

fn fmt(s: &str, config: Config) -> String {
    typstfmt::format(&convert(&parse(s)), config)
}

#[test]
fn parsed_binary_gets_one_space_per_side() {
    assert_eq!(fmt("#(1+2)", Config::default()), "#(1 + 2)");
}

#[test]
fn parsed_binary_with_messy_spacing() {
    assert_eq!(fmt("#(1  +   2)", Config::default()), "#(1 + 2)");
}

#[test]
fn parsed_named_argument_spacing() {
    assert_eq!(fmt("#f(a:1)", Config::default()), "#f(a: 1)");
}

#[test]
fn parsed_let_binding_spacing() {
    assert_eq!(fmt("#let x=1", Config::default()), "#let x = 1");
}

#[test]
fn parsed_markup_space_collapse() {
    assert_eq!(fmt("hello   world", Config::default()), "hello world");
    assert_eq!(fmt("a\n\n\n\nb", Config::default()), "a\n\nb");
}

#[test]
fn parsed_array_spacing() {
    assert_eq!(fmt("#(1,2,   3)", Config::default()), "#(1, 2, 3)");
}

#[test]
fn formatting_is_idempotent() {
    let sources = vec![
        "#(1+2)",
        "#(1  +   2)",
        "#f(a:1)",
        "#let x=1",
        "hello   world",
        "a\n\n\n\nb",
        "#(1,2,   3)",
        "#{let x=1\nx}",
        "#f(body,  size:  12pt)",
        "= A heading\n\nsome  text",
    ];
    for s in sources {
        let once = fmt(s, Config::default());
        let twice = fmt(&once, Config::default());
        assert_eq!(twice, once, "not idempotent on {:?}", s);
    }
}

#[test]
fn parsed_overlong_binary_warns_once() {
    let config = Config { max_line_length: 10, indent_width: 2, indent_char: ' ' };
    let root = convert(&parse("#(aaaaaa+bbb)"));
    let (_, warnings) = format_with_diagnostics(&root, config);
    assert_eq!(warnings, vec![Warning::BinaryBreakingUnsupported]);
}

#[test]
fn parsed_output_preserves_content_up_to_whitespace() {
    let sources = vec!["#f(a:1,  b)", "#let x=1", "#(1+2)*3", "some  markup [with  a block]"];
    for s in sources {
        let out = fmt(s, Config::default());
        let input_content: String = s.chars().filter(|c| !c.is_whitespace()).collect();
        let output_content: String = out.chars().filter(|c| !c.is_whitespace()).collect();
        assert_eq!(output_content, input_content, "content changed on {:?}", s);
    }
}

#[test]
fn empty_source_formats_to_empty() {
    assert_eq!(fmt("", Config::default()), "");
}

#[test]
fn parsed_dict_entries_share_the_rules() {
    assert_eq!(fmt("#(a:1,b:  2)", Config::default()), "#(a: 1, b: 2)");
}

#[test]
fn parsed_code_block_with_binding() {
    assert_eq!(fmt("#{let x=1\nx}", Config::default()), "#{let x = 1\nx}");
}
